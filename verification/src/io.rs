//! Random-access byte sources and sinks for the data plane.
//!
//! A retransmission re-sends an arbitrary earlier block and the receiver writes
//! blocks out of order, so the data plane needs positional access.

use crate::bytes::copy_into;
use crate::error::{IoError, IoKind};
use crate::protocol::crc32c_append;
use vstd::prelude::*;

verus! {

/// Source of bytes for the sender. A verified implementation says with
/// `modelled` and `contents` what it is a source of, with `reliable` and
/// `may_fail` how it can fail. Of one that leaves them as they are nothing is
/// claimed: neither which bytes it gives nor when it fails.
pub trait BlockSource: Send + Sync {
    /// Whether `contents` and `reliable` speak for the implementation.
    open spec fn modelled(&self) -> bool {
        false
    }

    /// The bytes of the object.
    open spec fn contents(&self) -> Seq<u8> {
        Seq::empty()
    }

    /// Whether a read inside the object always succeeds.
    open spec fn reliable(&self) -> bool {
        false
    }

    /// Whether a read of `len` bytes at `off` may fail with `e`.
    open spec fn may_fail(&self, off: int, len: int, e: IoError) -> bool {
        true
    }

    /// Total length in bytes.
    fn len(&self) -> (r: u64)
        ensures
            self.modelled() ==> r == self.contents().len(),
    ;

    /// Reads exactly `buf.len()` bytes starting at byte `off`, independent of
    /// any cursor.
    fn read_exact_at(&self, off: u64, buf: &mut [u8]) -> (r: Result<(), IoError>)
        ensures
            final(buf)@.len() == old(buf)@.len(),
            self.modelled() && r is Ok ==> off + old(buf)@.len() <= self.contents().len()
                && final(buf)@ == self.contents().subrange(off as int, off + old(buf)@.len()),
            self.modelled() && self.reliable() && off + old(buf)@.len() <= self.contents().len()
                ==> r is Ok,
            r matches Err(e) ==> self.may_fail(off as int, old(buf)@.len() as int, e),
    ;

    /// Whether the object has no bytes.
    fn is_empty(&self) -> (r: bool)
        ensures
            self.modelled() ==> r == (self.contents().len() == 0),
    {
        self.len() == 0
    }
}

/// What `old` becomes when `data` is written at `off`: the bytes there are
/// replaced, and a gap behind the end is filled with zeros.
pub open spec fn written(old: Seq<u8>, off: int, data: Seq<u8>) -> Seq<u8> {
    Seq::new(
        if off + data.len() > old.len() {
            (off + data.len()) as nat
        } else {
            old.len()
        },
        |i: int|
            if off <= i < off + data.len() {
                data[i - off]
            } else if i < old.len() {
                old[i]
            } else {
                0u8
            },
    )
}

/// Sink for the receiver: positional, out-of-order writes; `finalize` flushes. A
/// verified implementation says with `modelled` and `contents` what it holds, with
/// `reliable` and `may_fail` how it can fail. Of one that leaves them as they are
/// nothing is claimed: neither what it holds nor when it fails.
pub trait BlockSink: Send {
    /// Whether `contents` and `reliable` speak for the implementation.
    open spec fn modelled(&self) -> bool {
        false
    }

    /// The bytes written so far.
    open spec fn contents(&self) -> Seq<u8> {
        Seq::empty()
    }

    /// Whether a write inside the allocated size always succeeds.
    open spec fn reliable(&self) -> bool {
        false
    }

    /// Whether a write of `data` at `off` may fail with `e`.
    open spec fn may_fail(&self, off: int, data: Seq<u8>, e: IoError) -> bool {
        true
    }

    /// Sizes the destination to `len` up front so scattered writes are plain
    /// overwrites rather than appends.
    fn allocate(&mut self, len: u64) -> (r: Result<(), IoError>)
        ensures
            old(self).modelled() && r is Ok ==> final(self).contents().len() == len,
            final(self).modelled() == old(self).modelled(),
            final(self).reliable() == old(self).reliable(),
    ;

    /// Writes all of `buf` starting at byte `off`, independent of any cursor.
    fn write_all_at(&mut self, off: u64, buf: &[u8]) -> (r: Result<(), IoError>)
        ensures
            old(self).modelled() && r is Ok ==> final(self).contents() == written(
                old(self).contents(),
                off as int,
                buf@,
            ),
            old(self).modelled() && old(self).reliable() && off + buf@.len()
                <= old(self).contents().len() ==> r is Ok,
            r matches Err(e) ==> old(self).may_fail(off as int, buf@, e),
            final(self).modelled() == old(self).modelled(),
            final(self).reliable() == old(self).reliable(),
    ;

    /// Optional asynchronous-writeback hint over `[off, off + len)`. Does
    /// nothing unless the sink has a use for it.
    fn sync_range(&mut self, off: i64, len: i64)
        ensures
            old(self).modelled() ==> final(self).contents() == old(self).contents(),
            final(self).modelled() == old(self).modelled(),
            final(self).reliable() == old(self).reliable(),
    {
    }

    /// Flushes any buffered state. Called once after all writes succeed.
    fn finalize(&mut self) -> (r: Result<(), IoError>)
        ensures
            old(self).modelled() ==> final(self).contents() == old(self).contents(),
            final(self).modelled() == old(self).modelled(),
            final(self).reliable() == old(self).reliable(),
        default_ensures
            r is Ok,
    {
        Ok(())
    }

    /// Returns the CRC32C of everything written so far for the end-to-end
    /// integrity check, or `None` if read-back is unsupported.
    fn read_crc32c(&self) -> (r: Result<Option<u32>, IoError>)
        ensures
            self.modelled() && r is Ok && r->Ok_0 is Some ==> r->Ok_0->Some_0
                == crate::protocol::crc32c_of(self.contents()),
        default_ensures
            r == Ok::<Option<u32>, IoError>(None),
    {
        Ok(None)
    }
}

/// Whether `got` can come back when `data` is written to `sink` at `off`.
pub open spec fn is_write<K: BlockSink + ?Sized>(
    sink: &K,
    off: u64,
    data: Seq<u8>,
    got: Result<(), IoError>,
) -> bool {
    exists|m: &mut K, buf: &[u8]| #[trigger]
        call_ensures(K::write_all_at, (m, off, buf), got) && &*m == sink && buf@ == data
}

/// Whether `data` can be written to `sink` at `off`.
pub open spec fn is_good_write<K: BlockSink + ?Sized>(sink: &K, off: u64, data: Seq<u8>) -> bool {
    exists|got: Result<(), IoError>| #[trigger] is_write(sink, off, data, got) && got is Ok
}

/// Completes what was written to a sink: flushes it, and only when that went well
/// sums up what it now holds, as far as it can. A failed flush is the result.
pub fn read_back<K: BlockSink + ?Sized>(sink: &mut K) -> (r: Result<Option<u32>, IoError>)
    ensures
        exists|m: &mut K, flushed: Result<(), IoError>| #[trigger]
            call_ensures(K::finalize, (m,), flushed) && &*m == &*old(sink) && &*final(m)
                == &*final(sink) && match flushed {
                Ok(_) => call_ensures(K::read_crc32c, (&*final(sink),), r),
                Err(e) => r == Err::<Option<u32>, IoError>(e),
            },
        old(sink).modelled() ==> final(sink).contents() == old(sink).contents(),
        old(sink).modelled() && r is Ok && r->Ok_0 is Some ==> r->Ok_0->Some_0
            == crate::protocol::crc32c_of(old(sink).contents()),
{
    let flush = K::finalize;
    let sum = K::read_crc32c;
    match flush(&mut *sink) {
        Ok(()) => sum(&*sink),
        Err(e) => Err(e),
    }
}

/// Largest piece of a source that is read at once to sum it up.
pub const CHUNK: usize = 1_048_576;

/// The length of the piece that is read at `off` of `total` bytes.
pub open spec fn chunk_at(total: int, off: int) -> int {
    crate::stats::min_int(CHUNK as int, total - off)
}

/// Where the next piece is read after `off` of `total` bytes, and its length; none
/// where all have been read.
pub fn next_chunk(total: u64, off: u64) -> (r: Option<(u64, usize)>)
    ensures
        match r {
            Some((at, n)) => off < total && at == off && n == chunk_at(total as int, off as int),
            None => off >= total,
        },
{
    if off >= total {
        return None;
    }
    let left: u64 = total - off;
    if left < CHUNK as u64 {
        Some((off, left as usize))
    } else {
        Some((off, CHUNK))
    }
}

/// The end of the `k`-th piece of `total` bytes, one piece beginning where the
/// last one ended.
pub open spec fn chunk_end(total: int, k: nat) -> int
    decreases k,
{
    if k == 0 {
        0
    } else {
        let off = chunk_end(total, (k - 1) as nat);
        if off >= total {
            off
        } else {
            off + chunk_at(total, off)
        }
    }
}

/// A piece of a source: where it was read, and its bytes.
pub struct Chunk {
    pub off: u64,
    pub bytes: Seq<u8>,
}

/// Whether `parts` can be the first pieces of `total` bytes, each read where the
/// last one ended.
pub open spec fn are_chunks(total: int, parts: Seq<Chunk>) -> bool {
    forall|k: int|
        #![trigger parts[k]]
        0 <= k < parts.len() ==> {
            &&& parts[k].off == chunk_end(total, k as nat) < total
            &&& parts[k].bytes.len() == chunk_at(total, parts[k].off as int)
        }
}

/// All `parts`, one behind the other.
pub open spec fn joined(parts: Seq<Chunk>) -> Seq<u8>
    decreases parts.len(),
{
    if parts.len() == 0 {
        Seq::empty()
    } else {
        joined(parts.drop_last()) + parts.last().bytes
    }
}

/// Whether `off` is where a piece of `total` bytes is read.
pub open spec fn is_chunk(total: int, off: int) -> bool {
    0 <= off < total && off % (CHUNK as int) == 0
}

/// Law: the pieces of a source lie back to back and cover it exactly once. Each
/// holds at least one byte and at most `CHUNK`, none reaches past the end, and an
/// empty source has none.
pub proof fn chunks_cover_source_once(total: int, k: nat)
    requires
        0 <= total,
    ensures
        chunk_end(total, k) == crate::stats::min_int(k * CHUNK, total),
        chunk_end(total, k) < total ==> is_chunk(total, chunk_end(total, k)) && 0 < chunk_at(
            total,
            chunk_end(total, k),
        ) <= CHUNK && chunk_end(total, k) + chunk_at(total, chunk_end(total, k)) == chunk_end(
            total,
            k + 1,
        ) <= total,
        total <= k * CHUNK ==> chunk_end(total, k) == total,
    decreases k,
{
    if k > 0 {
        chunks_cover_source_once(total, (k - 1) as nat);
    }
    let end = chunk_end(total, k);
    if end < total {
        vstd::arithmetic::div_mod::lemma_mod_multiples_basic(k as int, CHUNK as int);
    }
}

/// Whether `got` can come back when the source is read at `off` into `m`.
pub open spec fn is_read<S: BlockSource + ?Sized>(
    src: &S,
    off: u64,
    m: &mut [u8],
    got: Result<(), IoError>,
) -> bool {
    call_ensures(S::read_exact_at, (src, off, m), got)
}

/// Whether the source can be read at `off` into `m`.
pub open spec fn is_good_read<S: BlockSource + ?Sized>(src: &S, off: u64, m: &mut [u8]) -> bool {
    exists|got: Result<(), IoError>| #[trigger] is_read(src, off, m, got) && got is Ok
}

/// Whether `parts` can be the first pieces of a source of `total` bytes, up to
/// `off`, and were read into `bufs`.
pub open spec fn are_reads<S: BlockSource + ?Sized>(
    src: &S,
    total: u64,
    parts: Seq<Chunk>,
    bufs: Seq<&mut [u8]>,
    off: u64,
) -> bool {
    &&& call_ensures(S::len, (src,), total)
    &&& are_chunks(total as int, parts)
    &&& off == chunk_end(total as int, parts.len())
    &&& bufs.len() == parts.len()
    &&& forall|k: int|
        #![trigger parts[k]]
        0 <= k < parts.len() ==> is_good_read(src, parts[k].off, bufs[k])
}

/// Computes the whole-source CRC32C by streaming positional reads: the value
/// the sender puts in the handshake for the receiver to verify. The pieces are
/// read one after the other, each where the last one ended, as far as the source
/// is long; the first one that cannot be read ends it.
pub fn source_crc32c<S: BlockSource + ?Sized>(src: &S) -> (r: Result<u32, IoError>)
    ensures
        exists|total: u64, parts: Seq<Chunk>, bufs: Seq<&mut [u8]>, off: u64| #[trigger]
            are_reads(src, total, parts, bufs, off) && (forall|k: int|
                0 <= k < parts.len() ==> final(bufs[k])@ == #[trigger] parts[k].bytes) && match r {
                Ok(crc) => off == total && crc == crate::protocol::crc32c_of(joined(parts)),
                Err(e) => off < total && exists|m: &mut [u8]| #[trigger]
                    is_read(src, off, m, Err(e)) && m@.len() == chunk_at(
                        total as int,
                        off as int,
                    ),
            },
        src.modelled() && r is Ok ==> r->Ok_0 == crate::protocol::crc32c_of(src.contents()),
        src.modelled() && (src.reliable() || src.contents().len() == 0) ==> r is Ok,
        r matches Err(e) ==> exists|total: int, off: int| #[trigger]
            is_chunk(total, off) && (src.modelled() ==> total == src.contents().len())
                && src.may_fail(off, chunk_at(total, off), e),
{
    let len = S::len;
    let read = S::read_exact_at;
    let total: u64 = len(src);
    let empty: Vec<u8> = Vec::new();
    let mut crc: u32 = crc32c_append(0, empty.as_slice());
    let mut end: u64 = 0;
    let mut buf: Vec<u8> = vec![0u8; CHUNK];
    let ghost mut parts: Seq<Chunk> = Seq::empty();
    proof {
        assert(are_reads(src, total, parts, Seq::empty(), end));
        assert(src.contents().take(0) =~= empty@);
        assert(joined(parts) =~= empty@);
    }
    loop
        invariant
            end <= total,
            src.modelled() ==> total == src.contents().len(),
            buf@.len() == CHUNK,
            crc == crate::protocol::crc32c_of(joined(parts)),
            src.modelled() ==> joined(parts) == src.contents().take(end as int),
            exists|bufs: Seq<&mut [u8]>| #[trigger]
                are_reads(src, total, parts, bufs, end) && forall|k: int|
                    0 <= k < parts.len() ==> final(bufs[k])@ == #[trigger] parts[k].bytes,
        ensures
            end == total,
        decreases total - end,
    {
        proof {
            chunks_cover_source_once(total as int, parts.len());
        }
        let (off, n): (u64, usize) = match next_chunk(total, end) {
            Some(piece) => piece,
            None => break,
        };
        let (part, rest) = buf.as_mut_slice().split_at_mut(n);
        let got = read(src, off, &mut *part);
        let ghost m = choose|m: &mut [u8]| #[trigger]
            call_ensures(S::read_exact_at, (src, off, m), got) && m@.len() == n && final(m)@
                == part@;
        assert(is_read(src, off, m, got));
        match got {
            Ok(()) => {},
            Err(e) => {
                assert(is_chunk(total as int, off as int));
                return Err(e);
            },
        }
        crc = crc32c_append(crc, part);
        proof {
            let more = parts.push(Chunk { off, bytes: part@ });
            assert(more.drop_last() =~= parts);
            if src.modelled() {
                assert(src.contents().take(off as int) + part@ =~= src.contents().take(off + n));
            }
            let bufs = choose|bufs: Seq<&mut [u8]>| #[trigger]
                are_reads(src, total, parts, bufs, off) && forall|k: int|
                    0 <= k < parts.len() ==> final(bufs[k])@ == #[trigger] parts[k].bytes;
            let again = bufs.push(m);
            assert forall|k: int| 0 <= k < more.len() implies final(again[k])@
                == #[trigger] more[k].bytes by {
                if k < parts.len() {
                    assert(again[k] == bufs[k] && more[k].bytes == parts[k].bytes);
                }
            }
            assert(are_reads(src, total, more, again, (off + n) as u64)) by {
                assert forall|k: int|
                    #![trigger more[k]]
                    0 <= k < more.len() implies is_good_read(src, more[k].off, again[k]) by {
                    if k < parts.len() {
                        assert(again[k] == bufs[k] && more[k] == parts[k]);
                    }
                }
            }
            parts = more;
        }
        end = off + n as u64;
    }
    proof {
        if src.modelled() {
            assert(src.contents().take(end as int) =~= src.contents());
        }
    }
    Ok(crc)
}

/// A `BlockSource` over bytes in memory.
pub struct MemSource(Vec<u8>);

impl MemSource {
    /// A source of the given bytes.
    pub fn new(data: Vec<u8>) -> (r: MemSource)
        ensures
            r.contents() == data@,
    {
        MemSource(data)
    }
}

/// Whether `r` is the failure of an access outside the object.
pub open spec fn is_bad_range(e: IoError) -> bool {
    e.kind == IoKind::UnexpectedEof && e.message@ == "positional access out of range"@
}

fn bad_range() -> (r: IoError)
    ensures
        is_bad_range(r),
{
    IoError::new(IoKind::UnexpectedEof, "positional access out of range")
}

impl BlockSource for MemSource {
    open spec fn modelled(&self) -> bool {
        true
    }

    closed spec fn contents(&self) -> Seq<u8> {
        self.0@
    }

    open spec fn reliable(&self) -> bool {
        true
    }

    open spec fn may_fail(&self, off: int, len: int, e: IoError) -> bool {
        off + len > self.contents().len() && is_bad_range(e)
    }

    fn len(&self) -> (r: u64) {
        self.0.len() as u64
    }

    fn read_exact_at(&self, off: u64, buf: &mut [u8]) -> (r: Result<(), IoError>)
        ensures
            r is Ok <==> off + old(buf)@.len() <= self.contents().len(),
            r matches Err(e) ==> is_bad_range(e) && final(buf)@ == old(buf)@,
    {
        let size: usize = self.0.len();
        if off > size as u64 {
            return Err(bad_range());
        }
        let start: usize = off as usize;
        if buf.len() > size - start {
            return Err(bad_range());
        }
        let n: usize = buf.len();
        copy_into(buf, 0, &self.0.as_slice()[start..start + n]);
        assert(buf@ =~= self.contents().subrange(off as int, off + n));
        Ok(())
    }
}

/// A `BlockSink` collecting the transfer into a single buffer in memory.
pub struct MemSink {
    buf: Vec<u8>,
}

impl Default for MemSink {
    fn default() -> (r: Self)
        ensures
            r.contents() == Seq::<u8>::empty(),
    {
        MemSink::new()
    }
}

impl MemSink {
    /// An empty sink.
    pub fn new() -> (r: MemSink)
        ensures
            r.contents() == Seq::<u8>::empty(),
    {
        MemSink { buf: Vec::new() }
    }

    /// Runs `f` over the collected bytes without copying them out.
    pub fn with_bytes<R, F: FnOnce(&[u8]) -> R>(&self, f: F) -> (r: R)
        requires
            forall|b: &[u8]| b@ == self.contents() ==> #[trigger] call_requires(f, (b,)),
        ensures
            exists|b: &[u8]| b@ == self.contents() && #[trigger] call_ensures(f, (b,), r),
    {
        f(self.buf.as_slice())
    }

    /// Copies the collected bytes out.
    pub fn to_vec(&self) -> (r: Vec<u8>)
        ensures
            r@ == self.contents(),
    {
        self.buf.clone()
    }

    /// Consumes the sink and returns the buffer without copying.
    pub fn into_vec(self) -> (r: Vec<u8>)
        ensures
            r@ == self.contents(),
    {
        self.buf
    }
}

impl BlockSink for MemSink {
    open spec fn modelled(&self) -> bool {
        true
    }

    closed spec fn contents(&self) -> Seq<u8> {
        self.buf@
    }

    open spec fn reliable(&self) -> bool {
        true
    }

    open spec fn may_fail(&self, off: int, data: Seq<u8>, e: IoError) -> bool {
        off + data.len() > usize::MAX && is_bad_range(e)
    }

    fn allocate(&mut self, len: u64) -> (r: Result<(), IoError>)
        ensures
            r is Ok <==> len <= usize::MAX,
            r is Ok ==> final(self).contents() == Seq::new(len as nat, |i: int| 0u8),
            r matches Err(e) ==> is_bad_range(e) && final(self).contents() == old(self).contents(),
    {
        if len > usize::MAX as u64 {
            return Err(bad_range());
        }
        self.buf.clear();
        self.buf.resize(len as usize, 0);
        assert(self.contents() =~= Seq::new(len as nat, |i: int| 0u8));
        Ok(())
    }

    fn write_all_at(&mut self, off: u64, buf: &[u8]) -> (r: Result<(), IoError>)
        ensures
            r is Ok <==> off + buf@.len() <= usize::MAX,
            r matches Err(e) ==> is_bad_range(e) && final(self).contents() == old(self).contents(),
    {
        let size: usize = self.buf.len();
        if off > usize::MAX as u64 {
            return Err(bad_range());
        }
        let start: usize = off as usize;
        let end: usize = match start.checked_add(buf.len()) {
            Some(end) => end,
            None => return Err(bad_range()),
        };
        let ghost before = self.buf@;
        if end > size {
            self.buf.resize(end, 0);
        }
        copy_into(self.buf.as_mut_slice(), start, buf);
        assert(self.buf@ =~= written(before, off as int, buf@));
        Ok(())
    }

    fn read_crc32c(&self) -> (r: Result<Option<u32>, IoError>)
        ensures
            r == Ok::<Option<u32>, IoError>(
                Some(crate::protocol::crc32c_of(self.contents())),
            ),
    {
        Ok(Some(crc32c_append(0, self.buf.as_slice())))
    }
}

/// Law: two writes to separate places can be made in either order.
pub proof fn separate_writes_commute(
    old: Seq<u8>,
    off1: int,
    data1: Seq<u8>,
    off2: int,
    data2: Seq<u8>,
)
    requires
        0 <= off1,
        0 <= off2,
        off1 + data1.len() <= off2 || off2 + data2.len() <= off1,
    ensures
        written(written(old, off1, data1), off2, data2) == written(
            written(old, off2, data2),
            off1,
            data1,
        ),
{
    assert(written(written(old, off1, data1), off2, data2) =~= written(
        written(old, off2, data2),
        off1,
        data1,
    ));
}

/// Law: what was written is what is read back, until it is written over.
pub proof fn write_then_read(old: Seq<u8>, off: int, data: Seq<u8>)
    requires
        0 <= off,
    ensures
        written(old, off, data).subrange(off, off + data.len()) == data,
        written(written(old, off, data), off, data) == written(old, off, data),
{
    assert(written(old, off, data).subrange(off, off + data.len()) =~= data);
    assert(written(written(old, off, data), off, data) =~= written(old, off, data));
}

} // verus!
