use bytecode::{ByteCode, OutOfBounds};

#[test]
fn new() {
    let v = vec![0, 1, 2, 3, 4, 5, 6, 7];
    let bytes = ByteCode::new(&v);
    assert_eq!(bytes.as_slice(), v);
    assert_eq!(bytes.pos(), 0);
}

#[test]
fn as_slice() {
    let v = vec![0, 1, 2, 3, 4, 5, 6, 7];
    let bytes = ByteCode::new(&v);
    assert_eq!(bytes.as_slice(), v);
}

#[test]
fn len() {
    let mut bytes = ByteCode::new(&[0, 1, 2, 3, 4, 5, 6, 7]);
    bytes.skip(3).unwrap();
    assert_eq!(bytes.as_slice().len(), 5);
    assert_eq!(bytes.len(), 8);
}

#[test]
fn pos() {
    let mut bytes = ByteCode::new(&[0, 1, 2, 3, 4, 5, 6, 7]);
    bytes.skip(5).unwrap();
    assert_eq!(bytes.pos(), 5);
}

#[test]
fn reset() {
    let v = vec![0, 1, 2, 3, 4, 5, 6, 7];
    let mut bytes = ByteCode::new(&v);
    bytes.skip(5).unwrap();
    assert_eq!(bytes.as_slice(), [5, 6, 7]);
    assert_eq!(bytes.pos(), 5);
    bytes.reset();
    assert_eq!(bytes.as_slice(), v);
    assert_eq!(bytes.pos(), 0);
}

#[test]
fn is_end() {
    let mut bytes = ByteCode::new(&[0, 1, 2, 3, 4, 5, 6, 7]);
    bytes.skip(8).unwrap();
    assert!(bytes.is_end());
}

#[test]
fn add_assign() {
    let mut bytes = ByteCode::new(&[0, 1, 2, 3, 4, 5, 6, 7]);

    bytes.skip(1).unwrap();
    assert_eq!(bytes.as_slice(), [1, 2, 3, 4, 5, 6, 7]);
    assert_eq!(bytes.pos(), 1);

    bytes.skip(3).unwrap();
    assert_eq!(bytes.as_slice(), [4, 5, 6, 7]);
    assert_eq!(bytes.pos(), 4);
}

#[test]
fn sub_assign() {
    let mut bytes = ByteCode::new(&[0, 1, 2, 3, 4, 5, 6, 7]);

    bytes.skip(8).unwrap();
    assert_eq!(bytes.as_slice(), []);
    assert_eq!(bytes.pos(), 8);

    bytes.retreat(1).unwrap();
    assert_eq!(bytes.as_slice(), [7]);
    assert_eq!(bytes.pos(), 7);

    bytes.retreat(3).unwrap();
    assert_eq!(bytes.as_slice(), [4, 5, 6, 7]);
    assert_eq!(bytes.pos(), 4);
}

#[test]
fn index() {
    let bytes = ByteCode::new(&[0, 1, 2, 3, 4, 5, 6, 7]);

    assert_eq!(bytes.get(4), Ok(4));
    assert_eq!(bytes.get_range(2, bytes.as_slice().len()), Ok(&[2, 3, 4, 5, 6, 7][..]));
    assert_eq!(bytes.get_range(0, 6), Ok(&[0, 1, 2, 3, 4, 5][..]));
    assert_eq!(bytes.get_range(2, 6), Ok(&[2, 3, 4, 5][..]));
    assert_eq!(bytes.get_range_inclusive(2, 6), Ok(&[2, 3, 4, 5, 6][..]));
}

#[test]
fn peek() {
    let bytes = ByteCode::new(&[0, 1, 2, 3, 4, 5, 6, 7]);
    assert_eq!(bytes.peek(3).unwrap(), [0, 1, 2]);
}

#[test]
fn peek_out_of_range() {
    let bytes = ByteCode::new(&[0, 1, 2, 3, 4, 5, 6, 7]);
    assert_eq!(bytes.peek(9), Err(OutOfBounds));
}

#[test]
fn starts_with() {
    let bytes = ByteCode::new(&[0, 1, 2, 3, 4, 5, 6, 7]);
    assert!(bytes.starts_with(&[0, 1, 2]).unwrap());

    let bytes = ByteCode::new(&[0x66, 0x6f, 0x6f, 0x00, 0x00, 0x00, 0x00, 0x00]);
    assert!(bytes.starts_with("foo".as_bytes()).unwrap());
}

#[test]
fn next() {
    let mut bytes = ByteCode::new(&[0, 1, 2, 3, 4, 5, 6, 7]);
    assert_eq!(bytes.peek(3).unwrap(), [0, 1, 2]);
    bytes.next().unwrap();
    assert_eq!(bytes.peek(3).unwrap(), [1, 2, 3]);
}

#[test]
fn prev() {
    let mut bytes = ByteCode::new(&[0, 1, 2, 3, 4, 5, 6, 7]);
    bytes.skip(4).unwrap();
    assert_eq!(bytes.peek(3).unwrap(), [4, 5, 6]);
    bytes.prev().unwrap();
    assert_eq!(bytes.peek(3).unwrap(), [3, 4, 5]);
}

#[test]
fn skip() {
    let mut bytes = ByteCode::new(&[0, 1, 2, 3, 4, 5, 6, 7]);
    assert_eq!(bytes.peek(3).unwrap(), [0, 1, 2]);
    bytes.skip(3).unwrap();
    assert_eq!(bytes.peek(3).unwrap(), [3, 4, 5]);
}

#[test]
fn take() {
    let mut bytes = ByteCode::new(&[0, 1, 2, 3, 4, 5, 6, 7]);
    assert_eq!(bytes.take(3).unwrap(), [0, 1, 2]);
    assert_eq!(bytes.peek(3).unwrap(), [3, 4, 5]);
}

#[test]
fn take_into_u16() {
    let mut bytes = ByteCode::new(&[0xff, 0xff, 0x00, 0x00, 0x00, 0x00, 0x00, 0x00]);
    assert_eq!(bytes.take_into_u16().unwrap(), u16::MAX);
    assert_eq!(bytes.peek(3).unwrap(), [0, 0, 0]);
}

#[test]
fn take_into_u32() {
    let mut bytes = ByteCode::new(&[0xff, 0xff, 0xff, 0xff, 0x00, 0x00, 0x00, 0x00]);
    assert_eq!(bytes.take_into_u32().unwrap(), u32::MAX);
    assert_eq!(bytes.peek(3).unwrap(), [0, 0, 0]);
}
