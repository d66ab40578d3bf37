//! What holds of sources and sinks of bytes.

use crate::error::{IoError, IoKind};
use crate::io::{
    next_chunk, read_back, source_crc32c, BlockSink, BlockSource, MemSink, MemSource,
};
use crate::protocol::{crc32c, crc32c_append};
use vstd::prelude::*;

verus! {

/// Law: a source in memory gives out the bytes that it was made from, wherever
/// they are read, and refuses a read that reaches past their end without touching
/// the buffer.
pub proof fn sources_give_their_bytes()
    ensures
        forall|data: Vec<u8>, s: MemSource| #[trigger]
            call_ensures(MemSource::new, (data,), s) ==> s.contents() == data@,
        forall|s: &MemSource, r: u64| #[trigger]
            call_ensures(<MemSource as BlockSource>::len, (s,), r) ==> r == s.contents().len(),
        forall|s: &MemSource, off: u64, buf: &mut [u8], r: Result<(), IoError>| #[trigger]
            call_ensures(<MemSource as BlockSource>::read_exact_at, (s, off, buf), r) ==> {
                &&& r is Ok <==> off + buf@.len() <= s.contents().len()
                &&& r is Ok ==> forall|i: int|
                    0 <= i < buf@.len() ==> #[trigger] final(buf)@[i] == s.contents()[off + i]
                &&& final(buf)@.len() == buf@.len()
                &&& r is Err ==> final(buf)@ == buf@ && r->Err_0.kind == IoKind::UnexpectedEof
                    && r->Err_0.message@ == "positional access out of range"@
            },
{
}

/// Law: a sink in memory holds what was written to it. A write puts its bytes at
/// their place and leaves all others alone; a gap reads as zeros; sizing it makes
/// it that long and empty of what it held.
pub proof fn sinks_hold_what_was_written()
    ensures
        forall|s: MemSink| #[trigger]
            call_ensures(MemSink::new, (), s) ==> s.contents().len() == 0,
        forall|m: &mut MemSink, off: u64, buf: &[u8], r: Result<(), IoError>| #[trigger]
            call_ensures(<MemSink as BlockSink>::write_all_at, (m, off, buf), r) ==> {
                let end = off + buf@.len();
                &&& r is Ok <==> end <= usize::MAX
                &&& r is Ok ==> {
                    &&& final(m).contents().len() >= end
                    &&& final(m).contents().len() >= m.contents().len()
                    &&& final(m).contents().len() == end || final(m).contents().len()
                        == m.contents().len()
                    &&& forall|i: int|
                        0 <= i < buf@.len() ==> final(m).contents()[off + i] == #[trigger] buf@[i]
                    &&& forall|i: int|
                        0 <= i < m.contents().len() && !(off <= i < end) ==> #[trigger] final(
                            m).contents()[i] == m.contents()[i]
                    &&& forall|i: int|
                        m.contents().len() <= i < off ==> #[trigger] final(m).contents()[i] == 0
                }
                &&& r is Err ==> final(m).contents() == m.contents() && r->Err_0.kind
                    == IoKind::UnexpectedEof && r->Err_0.message@
                    == "positional access out of range"@
            },
        forall|m: &mut MemSink, len: u64, r: Result<(), IoError>| #[trigger]
            call_ensures(<MemSink as BlockSink>::allocate, (m, len), r) ==> {
                &&& r is Ok <==> len <= usize::MAX
                &&& r is Ok ==> final(m).contents().len() == len && forall|i: int|
                    0 <= i < len ==> #[trigger] final(m).contents()[i] == 0
                &&& r is Err ==> final(m).contents() == m.contents()
            },
        forall|s: &MemSink, r: Vec<u8>| #[trigger]
            call_ensures(MemSink::to_vec, (s,), r) ==> r@ == s.contents(),
        forall|s: MemSink, r: Vec<u8>| #[trigger]
            call_ensures(MemSink::into_vec, (s,), r) ==> r@ == s.contents(),
        forall|s: &MemSink, r: Result<Option<u32>, IoError>| #[trigger]
            call_ensures(<MemSink as BlockSink>::read_crc32c, (s,), r) ==> r is Ok && r->Ok_0
                is Some && r->Ok_0->Some_0 == crate::protocol::crc32c_of(s.contents()),
{
    assert forall|m: &mut MemSink, off: u64, buf: &[u8], r: Result<(), IoError>| #[trigger]
        call_ensures(<MemSink as BlockSink>::write_all_at, (m, off, buf), r) && r
            is Ok implies (forall|i: int|
        0 <= i < buf@.len() ==> final(m).contents()[off + i] == #[trigger] buf@[i]) by {
        let after = final(m).contents();
        assert(after == crate::io::written(m.contents(), off as int, buf@));
        assert forall|i: int| 0 <= i < buf@.len() implies after[off + i] == #[trigger] buf@[i] by {
            assert(after[off + i] == buf@[(off + i) - off]);
        }
    }
}

/// Law: an object whose bytes were all moved has the checksum of its source at
/// both ends, and one that differs in a byte has another.
pub proof fn checksums_tell_objects_apart<S: BlockSource + ?Sized, K: BlockSink + ?Sized>()
    ensures
        forall|src: &S, a: u32, sink: &mut K, b: u32|
            #![trigger call_ensures(source_crc32c::<S>, (src,), Ok(a)), call_ensures(read_back::<K>, (sink,), Ok(Some(b)))]
            call_ensures(source_crc32c::<S>, (src,), Ok(a)) && call_ensures(
                read_back::<K>,
                (sink,),
                Ok(Some(b)),
            ) && src.modelled() && sink.modelled() ==> {
                &&& src.contents() == sink.contents() ==> a == b
                &&& (src.contents().len() == sink.contents().len() && exists|at: int|
                    0 <= at < src.contents().len() && #[trigger] src.contents()[at]
                        != sink.contents()[at] && forall|i: int|
                        0 <= i < src.contents().len() && i != at ==> #[trigger] src.contents()[i]
                            == sink.contents()[i]) ==> a != b
            },
        forall|sink: &mut K, r: Result<Option<u32>, IoError>| #[trigger]
            call_ensures(read_back::<K>, (sink,), r) && sink.modelled() ==> final(sink).contents()
                == sink.contents(),
{
    assert forall|src: &S, a: u32, sink: &mut K, b: u32|
        #![trigger call_ensures(source_crc32c::<S>, (src,), Ok(a)), call_ensures(read_back::<K>, (sink,), Ok(Some(b)))]
        call_ensures(source_crc32c::<S>, (src,), Ok(a)) && call_ensures(
            read_back::<K>,
            (sink,),
            Ok(Some(b)),
        ) && src.modelled() && sink.modelled() && src.contents().len() == sink.contents().len()
            && (exists|at: int|
            0 <= at < src.contents().len() && #[trigger] src.contents()[at] != sink.contents()[at]
                && forall|i: int|
                0 <= i < src.contents().len() && i != at ==> #[trigger] src.contents()[i]
                    == sink.contents()[i]) implies a != b by {
        let at = choose|at: int|
            0 <= at < src.contents().len() && #[trigger] src.contents()[at] != sink.contents()[at]
                && forall|i: int|
                0 <= i < src.contents().len() && i != at ==> #[trigger] src.contents()[i]
                    == sink.contents()[i];
        crate::protocol::changed_byte_is_detected(src.contents(), sink.contents(), at);
    }
}

/// Law: a checksum can be taken at once or in pieces.
pub proof fn checksums_add_up()
    ensures
        forall|a: &[u8], b: &[u8], all: &[u8], x: u32, y: u32, z: u32|
            #![trigger call_ensures(crc32c, (a,), x), call_ensures(crc32c_append, (x, b), y), call_ensures(crc32c, (all,), z)]
            call_ensures(crc32c, (a,), x) && call_ensures(crc32c_append, (x, b), y)
                && call_ensures(crc32c, (all,), z) && all@ == a@ + b@ ==> y == z,
        forall|crc: u32, b: &[u8], r: u32| #[trigger]
            call_ensures(crc32c_append, (crc, b), r) && b@.len() == 0 ==> r == crc,
{
}

/// Law: a source is read to its end in pieces of a megabyte, each where the last
/// one ended, the last one as long as what is left.
pub proof fn pieces_follow_each_other()
    ensures
        forall|total: u64, off: u64, r: Option<(u64, usize)>| #[trigger]
            call_ensures(next_chunk, (total, off), r) ==> {
                &&& r is None <==> off >= total
                &&& r matches Some((at, n)) ==> at == off && n > 0 && (n == 1_048_576 && off + n
                    <= total || n < 1_048_576 && off + n == total)
            },
{
}

} // verus!
