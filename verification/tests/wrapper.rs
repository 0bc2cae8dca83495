use ioat::AssertThreadSafe;
use ioat::IoError;
use ioat::MemCursor;
use ioat::ReadAt;
use ioat::SeekRead;
use ioat::SeekWrite;
use ioat::WriteAt;

#[test]
fn wrapped_cursor_reads_positionally() {
    let mut a = AssertThreadSafe(MemCursor::new(vec![1, 2, 3, 4, 5, 6]));
    let mut buf: Vec<u8> = vec![0; 2];
    assert_eq!(a.read_at(2, &mut buf).unwrap(), 2);
    assert_eq!(buf, vec![3, 4]);
    // past the end: zero bytes, no error
    assert_eq!(a.read_at(6, &mut buf).unwrap(), 0);
}

#[test]
fn wrapped_cursor_writes_positionally() {
    let mut a = AssertThreadSafe(MemCursor::new(vec![1, 2, 3, 4]));
    assert_eq!(a.write_at(2, &vec![9, 9, 9]).unwrap(), 3);
    a.flush().unwrap();
    assert_eq!(a.0.into_inner(), vec![1, 2, 9, 9, 9]);
}

#[test]
fn sequential_reads_do_not_interfere() {
    // two sequential positional reads at different offsets return the
    // same bytes as fresh reads at those offsets would
    let mut a = AssertThreadSafe(MemCursor::new(vec![10, 20, 30, 40, 50]));
    let mut first: Vec<u8> = vec![0; 2];
    let mut second: Vec<u8> = vec![0; 2];
    assert_eq!(a.read_at(0, &mut first).unwrap(), 2);
    assert_eq!(a.read_at(3, &mut second).unwrap(), 2);
    assert_eq!(first, vec![10, 20]);
    assert_eq!(second, vec![40, 50]);

    let mut fresh = AssertThreadSafe(MemCursor::new(vec![10, 20, 30, 40, 50]));
    let mut alone: Vec<u8> = vec![0; 2];
    assert_eq!(fresh.read_at(3, &mut alone).unwrap(), 2);
    assert_eq!(alone, second);
}

#[test]
fn sequential_disjoint_writes_both_land() {
    let mut a = AssertThreadSafe(MemCursor::new(vec![0; 6]));
    assert_eq!(a.write_at(0, &vec![1, 2]).unwrap(), 2);
    assert_eq!(a.write_at(4, &vec![8, 9]).unwrap(), 2);
    assert_eq!(a.0.into_inner(), vec![1, 2, 0, 0, 8, 9]);
}

#[test]
fn wrapped_exact_read_seeks_once_then_fills() {
    let mut a = AssertThreadSafe(MemCursor::new(vec![1, 2, 3, 4, 5]));
    let mut buf: Vec<u8> = vec![0; 3];
    a.read_exact_at(1, &mut buf).unwrap();
    assert_eq!(buf, vec![2, 3, 4]);
    // the stream's cursor stands right after the bytes just read
    assert_eq!(a.0.position(), 4);
}

#[test]
fn wrapped_exact_read_past_end_is_unexpected_eof() {
    let mut a = AssertThreadSafe(MemCursor::new(vec![1, 2, 3]));
    let mut buf: Vec<u8> = vec![0; 3];
    assert_eq!(a.read_exact_at(1, &mut buf), Err(IoError::UnexpectedEof));
}

#[test]
fn wrapped_write_all_drains_whole_buffer() {
    let mut a = AssertThreadSafe(MemCursor::new(vec![5, 5]));
    a.write_all_at(1, &vec![7, 8, 9]).unwrap();
    assert_eq!(a.0.into_inner(), vec![5, 7, 8, 9]);
}

#[test]
fn wrapped_write_all_at_unrepresentable_offset_is_write_zero() {
    let mut a = AssertThreadSafe(MemCursor::new(vec![]));
    assert_eq!(a.write_all_at(u64::MAX, &vec![1]), Err(IoError::WriteZero));
}

#[test]
fn cursor_seek_then_sequential_ops() {
    let mut c = MemCursor::new(vec![1, 2, 3, 4]);
    SeekRead::seek_to(&mut c, 1).unwrap();
    let mut buf: Vec<u8> = vec![0; 2];
    assert_eq!(c.read_next(&mut buf).unwrap(), 2);
    assert_eq!(buf, vec![2, 3]);
    assert_eq!(c.position(), 3);

    SeekWrite::seek_to(&mut c, 0).unwrap();
    assert_eq!(c.write_next(&vec![9]).unwrap(), 1);
    assert_eq!(c.position(), 1);
    c.flush_stream().unwrap();
    assert_eq!(c.into_inner(), vec![9, 2, 3, 4]);
}

#[test]
fn cursor_exact_ops_advance_cursor() {
    let mut c = MemCursor::new(vec![1, 2, 3]);
    SeekWrite::seek_to(&mut c, 3).unwrap();
    c.write_all_next(&vec![4, 5]).unwrap();
    assert_eq!(c.position(), 5);
    SeekRead::seek_to(&mut c, 0).unwrap();
    let mut buf: Vec<u8> = vec![0; 5];
    c.read_exact_next(&mut buf).unwrap();
    assert_eq!(buf, vec![1, 2, 3, 4, 5]);
}
