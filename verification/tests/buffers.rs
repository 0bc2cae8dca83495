use ioat::FixedBuf;
use ioat::IoError;
use ioat::ReadAt;
use ioat::WriteAt;

#[test]
fn vec_read_in_bounds_matches_content() {
    let mut v: Vec<u8> = vec![10, 20, 30, 40, 50];
    let mut buf: Vec<u8> = vec![0; 3];
    let n = v.read_at(1, &mut buf).unwrap();
    assert_eq!(n, 3);
    assert_eq!(buf, vec![20, 30, 40]);
    // a second read at the same offset sees the same bytes
    let mut again: Vec<u8> = vec![0; 3];
    let n2 = v.read_at(1, &mut again).unwrap();
    assert_eq!(n2, 3);
    assert_eq!(again, buf);
}

#[test]
fn in_bounds_read_equals_direct_slice_of_source() {
    let src: Vec<u8> = (0..32).map(|i| (i * 3) as u8).collect();
    let mut v = src.clone();
    let mut buf: Vec<u8> = vec![0; 10];
    assert_eq!(v.read_at(7, &mut buf).unwrap(), 10);
    assert_eq!(buf.as_slice(), &src[7..17]);
}

#[test]
fn fixed_read_in_bounds_matches_content() {
    let mut f = FixedBuf::new(vec![9, 8, 7, 6, 5]);
    let mut buf: Vec<u8> = vec![0; 3];
    assert_eq!(f.read_at(1, &mut buf).unwrap(), 3);
    assert_eq!(buf, vec![8, 7, 6]);
    f.read_exact_at(2, &mut buf).unwrap();
    assert_eq!(buf, vec![7, 6, 5]);
}

#[test]
fn vec_read_truncates_at_end() {
    let mut v: Vec<u8> = vec![1, 2, 3, 4];
    let mut buf: Vec<u8> = vec![0; 8];
    let n = v.read_at(2, &mut buf).unwrap();
    assert_eq!(n, 2);
    assert_eq!(&buf[..2], &[3, 4]);
    // bytes past the count are left as they were
    assert_eq!(&buf[2..], &[0, 0, 0, 0, 0, 0]);
}

#[test]
fn vec_read_past_end_returns_zero() {
    let mut v: Vec<u8> = vec![1, 2, 3, 4];
    let mut buf: Vec<u8> = vec![7; 4];
    assert_eq!(v.read_at(4, &mut buf).unwrap(), 0);
    assert_eq!(v.read_at(1000, &mut buf).unwrap(), 0);
    assert_eq!(buf, vec![7; 4]);
}

#[test]
fn fixed_read_past_end_returns_zero() {
    let mut f = FixedBuf::new(vec![1, 2, 3, 4]);
    let mut buf: Vec<u8> = vec![0; 2];
    assert_eq!(f.read_at(4, &mut buf).unwrap(), 0);
    assert_eq!(f.read_at(u64::MAX, &mut buf).unwrap(), 0);
}

#[test]
fn growable_write_extends_buffer() {
    // a 4-byte growable buffer [1,2,3,4]: write_at(2, [9,9,9]) grows it
    // by one byte and reports all three written
    let mut v: Vec<u8> = vec![1, 2, 3, 4];
    let n = v.write_at(2, &vec![9, 9, 9]).unwrap();
    assert_eq!(n, 3);
    assert_eq!(v, vec![1, 2, 9, 9, 9]);
}

#[test]
fn fixed_write_truncates_no_growth() {
    // a 4-byte fixed buffer [1,2,3,4]: write_at(2, [9,9,9]) copies only
    // two bytes and never resizes
    let mut f = FixedBuf::new(vec![1, 2, 3, 4]);
    let n = f.write_at(2, &vec![9, 9, 9]).unwrap();
    assert_eq!(n, 2);
    assert_eq!(f.len(), 4);
    assert_eq!(f.into_vec(), vec![1, 2, 9, 9]);
}

#[test]
fn fixed_write_past_end_accepts_nothing() {
    let mut f = FixedBuf::new(vec![1, 2, 3]);
    assert_eq!(f.write_at(3, &vec![9]).unwrap(), 0);
    assert_eq!(f.write_at(50, &vec![9]).unwrap(), 0);
    assert_eq!(f.into_vec(), vec![1, 2, 3]);
}

#[test]
fn growable_round_trip() {
    let mut v: Vec<u8> = vec![5, 5];
    let d: Vec<u8> = vec![11, 22, 33, 44];
    v.write_all_at(1, &d).unwrap();
    let mut back: Vec<u8> = vec![0; 4];
    v.read_exact_at(1, &mut back).unwrap();
    assert_eq!(back, d);
}

#[test]
fn growable_write_past_end_zero_fills_gap() {
    let mut v: Vec<u8> = vec![1];
    let n = v.write_at(3, &vec![8, 9]).unwrap();
    assert_eq!(n, 2);
    assert_eq!(v, vec![1, 0, 0, 8, 9]);
}

#[test]
fn growable_write_at_unrepresentable_offset_reports_zero() {
    let mut v: Vec<u8> = vec![1, 2];
    assert_eq!(v.write_at(u64::MAX, &vec![9]).unwrap(), 0);
    assert_eq!(v, vec![1, 2]);
}

#[test]
fn write_all_at_unrepresentable_offset_is_write_zero() {
    let mut v: Vec<u8> = vec![];
    assert_eq!(v.write_all_at(u64::MAX, &vec![9]), Err(IoError::WriteZero));
}

#[test]
fn fixed_write_all_beyond_capacity_is_write_zero() {
    let mut f = FixedBuf::new(vec![0; 3]);
    assert_eq!(f.write_all_at(1, &vec![7, 7, 7]), Err(IoError::WriteZero));
    // the two bytes that fit stay applied
    assert_eq!(f.into_vec(), vec![0, 7, 7]);
}

#[test]
fn read_exact_at_beyond_end_is_unexpected_eof() {
    let mut v: Vec<u8> = vec![1, 2, 3, 4];
    let mut buf: Vec<u8> = vec![0; 3];
    assert_eq!(v.read_exact_at(2, &mut buf), Err(IoError::UnexpectedEof));
}

#[test]
fn read_exact_at_in_bounds_fills_whole_buffer() {
    let mut v: Vec<u8> = vec![1, 2, 3, 4];
    let mut buf: Vec<u8> = vec![0; 3];
    v.read_exact_at(1, &mut buf).unwrap();
    assert_eq!(buf, vec![2, 3, 4]);
}

#[test]
fn empty_buffer_exact_read_succeeds() {
    let mut v: Vec<u8> = vec![];
    let mut buf: Vec<u8> = vec![];
    v.read_exact_at(9, &mut buf).unwrap();
}

#[test]
fn in_memory_flush_is_noop() {
    let mut v: Vec<u8> = vec![1];
    v.flush().unwrap();
    assert_eq!(v, vec![1]);
    let mut f = FixedBuf::new(vec![2]);
    f.flush().unwrap();
    assert_eq!(f.byte(0), 2);
}
