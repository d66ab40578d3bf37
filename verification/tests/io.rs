//! Memory-backed sources and sinks.

use girth::error::{IoError, IoKind};
use girth::io::{
    next_chunk, read_back, source_crc32c, BlockSink, BlockSource, MemSink, MemSource, CHUNK,
};
use girth::protocol::{crc32c, crc32c_append};
use std::sync::Mutex;

#[test]
fn mem_source_positional_reads() {
    let src = MemSource::new(vec![0u8, 1, 2, 3, 4, 5, 6, 7]);
    assert_eq!(src.len(), 8);
    let mut b = [0u8; 3];
    src.read_exact_at(2, &mut b).unwrap();
    assert_eq!(b, [2, 3, 4]);
    // Out-of-range reads error rather than panic.
    assert!(src.read_exact_at(6, &mut [0u8; 4]).is_err());
    assert!(src.read_exact_at(u64::MAX, &mut [0u8; 1]).is_err());
}

#[test]
fn mem_sink_out_of_order_writes_and_crc() {
    let mut sink = MemSink::new();
    sink.allocate(6).unwrap();
    // Write out of order, as the receiver does.
    sink.write_all_at(3, &[3, 4, 5]).unwrap();
    sink.write_all_at(0, &[0, 1, 2]).unwrap();
    assert_eq!(sink.to_vec(), vec![0, 1, 2, 3, 4, 5]);
    let want = crc32c_append(0, &[0, 1, 2, 3, 4, 5]);
    assert_eq!(sink.read_crc32c().unwrap(), Some(want));
}

#[test]
fn source_crc_matches_direct() {
    let data: Vec<u8> = (0..5000u32).map(|i| i as u8).collect();
    let direct = crc32c_append(0, &data);
    let src = MemSource::new(data);
    assert_eq!(source_crc32c(&src).unwrap(), direct);
}

#[test]
fn source_crc_spans_chunks() {
    let data: Vec<u8> = (0..5_000_000u32).map(|i| (i * 7 + i / 251) as u8).collect();
    let direct = crc32c_append(0, &data);
    assert_eq!(source_crc32c(&MemSource::new(data)).unwrap(), direct);
    let empty = MemSource::new(Vec::new());
    assert!(empty.is_empty());
    assert_eq!(source_crc32c(&empty).unwrap(), 0);
}

#[test]
fn refused_reads_leave_the_kind_of_failure() {
    let src = MemSource::new(vec![1, 2, 3]);
    let e = src.read_exact_at(2, &mut [0u8; 2]).unwrap_err();
    assert_eq!(e.kind, IoKind::UnexpectedEof);
}

#[test]
fn separate_writes_in_either_order() {
    let mut a = MemSink::new();
    a.allocate(8).unwrap();
    a.write_all_at(0, b"abc").unwrap();
    a.write_all_at(5, b"xyz").unwrap();
    let mut b = MemSink::new();
    b.allocate(8).unwrap();
    b.write_all_at(5, b"xyz").unwrap();
    b.write_all_at(0, b"abc").unwrap();
    assert_eq!(a.to_vec(), b.to_vec());
    assert_eq!(a.to_vec(), b"abc\0\0xyz".to_vec());
    assert_eq!(a.with_bytes(|s| s.len()), 8);
    b.finalize().unwrap();
    assert_eq!(b.into_vec(), b"abc\0\0xyz".to_vec());
    // A write past the end grows the sink; one past all memory is refused.
    a.write_all_at(9, b"end").unwrap();
    assert_eq!(a.to_vec(), b"abc\0\0xyz\0end".to_vec());
    assert!(a.write_all_at(u64::MAX, b"x").is_err());
}

/// A source that notes how it is read, and fails from `broken` on.
struct NotedSource {
    len: u64,
    broken: u64,
    reads: Mutex<Vec<(u64, usize)>>,
}

impl BlockSource for NotedSource {
    fn len(&self) -> u64 {
        self.len
    }
    fn read_exact_at(&self, off: u64, buf: &mut [u8]) -> Result<(), IoError> {
        self.reads.lock().unwrap().push((off, buf.len()));
        if off >= self.broken {
            return Err(IoError::new(IoKind::TimedOut, "slow disk"));
        }
        buf.fill(7);
        Ok(())
    }
}

#[test]
fn sources_are_read_once_from_front_to_back() {
    let noted = |len: u64, broken: u64| NotedSource {
        len,
        broken,
        reads: Mutex::new(Vec::new()),
    };
    let n = CHUNK as u64;
    let src = noted(2 * n + 5, u64::MAX);
    assert_eq!(
        source_crc32c(&src).unwrap(),
        crc32c(&vec![7u8; 2 * CHUNK + 5])
    );
    assert_eq!(
        *src.reads.lock().unwrap(),
        [(0, CHUNK), (n, CHUNK), (2 * n, 5)]
    );
    // The first piece that cannot be read ends it, with its own failure.
    let src = noted(3 * n, n);
    let e = source_crc32c(&src).unwrap_err();
    assert_eq!((e.kind, e.message.as_str()), (IoKind::TimedOut, "slow disk"));
    assert_eq!(*src.reads.lock().unwrap(), [(0, CHUNK), (n, CHUNK)]);
    // Of nothing nothing is read.
    let src = noted(0, 0);
    assert_eq!(source_crc32c(&src).unwrap(), 0);
    assert!(src.reads.lock().unwrap().is_empty());

    assert_eq!(next_chunk(10, 10), None);
    assert_eq!(next_chunk(10, 4), Some((4, 6)));
    assert_eq!(next_chunk(u64::MAX, 4), Some((4, CHUNK)));
}

/// A sink that notes what is asked of it and fails as told.
struct NotedSink {
    flush: Result<(), IoError>,
    sum: Result<Option<u32>, IoError>,
    asked: Mutex<Vec<&'static str>>,
}

impl BlockSink for NotedSink {
    fn allocate(&mut self, _len: u64) -> Result<(), IoError> {
        Ok(())
    }

    fn write_all_at(&mut self, _off: u64, _buf: &[u8]) -> Result<(), IoError> {
        Ok(())
    }

    fn finalize(&mut self) -> Result<(), IoError> {
        self.asked.lock().unwrap().push("flush");
        match &self.flush {
            Ok(()) => Ok(()),
            Err(e) => Err(IoError::new(e.kind, e.message.as_str())),
        }
    }

    fn read_crc32c(&self) -> Result<Option<u32>, IoError> {
        self.asked.lock().unwrap().push("sum");
        match &self.sum {
            Ok(crc) => Ok(*crc),
            Err(e) => Err(IoError::new(e.kind, e.message.as_str())),
        }
    }
}

#[test]
fn sinks_are_flushed_before_they_are_read_back() {
    let full = || IoError::new(IoKind::Other, "disk full");
    let slow = || IoError::new(IoKind::TimedOut, "slow disk");
    let noted = |flush, sum| NotedSink {
        flush,
        sum,
        asked: Mutex::new(Vec::new()),
    };
    let mut sink = noted(Ok(()), Ok(Some(7)));
    assert_eq!(read_back(&mut sink).unwrap(), Some(7));
    assert_eq!(*sink.asked.lock().unwrap(), ["flush", "sum"]);
    let mut sink = noted(Ok(()), Ok(None));
    assert_eq!(read_back(&mut sink).unwrap(), None);
    // Nothing is read back where the flush failed.
    let mut sink = noted(Err(full()), Err(slow()));
    assert_eq!(read_back(&mut sink).unwrap_err().message, "disk full");
    assert_eq!(*sink.asked.lock().unwrap(), ["flush"]);
    let mut sink = noted(Ok(()), Err(slow()));
    assert_eq!(read_back(&mut sink).unwrap_err().kind, IoKind::TimedOut);
    // A sink in memory has nothing to flush, and any kind of sink will do.
    let mut sink = MemSink::new();
    sink.write_all_at(0, &[1, 2, 3]).unwrap();
    let sink: &mut dyn BlockSink = &mut sink;
    assert_eq!(read_back(sink).unwrap(), Some(crc32c(&[1, 2, 3])));
}
