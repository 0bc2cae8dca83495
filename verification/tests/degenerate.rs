use ioat::Empty;
use ioat::IoError;
use ioat::ReadAt;
use ioat::Repeat;
use ioat::Sink;
use ioat::WriteAt;

#[test]
fn empty_reads_zero_everywhere() {
    let mut e = Empty;
    let mut buf: Vec<u8> = vec![3; 4];
    assert_eq!(e.read_at(0, &mut buf).unwrap(), 0);
    assert_eq!(e.read_at(12345, &mut buf).unwrap(), 0);
    assert_eq!(buf, vec![3; 4]);
}

#[test]
fn empty_exact_read_is_unexpected_eof() {
    let mut e = Empty;
    let mut buf: Vec<u8> = vec![0; 1];
    assert_eq!(e.read_exact_at(0, &mut buf), Err(IoError::UnexpectedEof));
}

#[test]
fn repeat_fills_whole_buffer() {
    let mut r = Repeat::new(0xAB);
    let mut buf: Vec<u8> = vec![0; 5];
    assert_eq!(r.read_at(0, &mut buf).unwrap(), 5);
    assert_eq!(buf, vec![0xAB; 5]);
}

#[test]
fn repeat_is_offset_independent() {
    let mut r = Repeat::new(7);
    let mut first: Vec<u8> = vec![0; 6];
    let mut second: Vec<u8> = vec![1; 6];
    assert_eq!(r.read_at(0, &mut first).unwrap(), 6);
    assert_eq!(r.read_at(987654321, &mut second).unwrap(), 6);
    assert_eq!(first, second);
}

#[test]
fn repeat_exact_read_succeeds_everywhere() {
    let mut r = Repeat::new(1);
    let mut buf: Vec<u8> = vec![0; 3];
    r.read_exact_at(u64::MAX - 3, &mut buf).unwrap();
    assert_eq!(buf, vec![1, 1, 1]);
}

#[test]
fn sink_reports_everything_written() {
    let mut s = Sink;
    assert_eq!(s.write_at(0, &vec![1, 2, 3]).unwrap(), 3);
    assert_eq!(s.write_at(u64::MAX, &vec![4; 10]).unwrap(), 10);
    assert_eq!(s.write_at(5, &vec![]).unwrap(), 0);
}

#[test]
fn sink_write_all_always_succeeds() {
    let mut s = Sink;
    s.write_all_at(0, &vec![]).unwrap();
    s.write_all_at(42, &vec![9; 1000]).unwrap();
    s.write_all_at(u64::MAX - 1000, &vec![1; 1000]).unwrap();
    s.flush().unwrap();
}
