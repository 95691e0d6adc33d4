use ferrumc::encoding::cursor::Cursor;
use ferrumc::error::CodecError;

#[test]
fn reads_move_the_position() {
    let mut cursor = Cursor::new(vec![1, 2, 3]);
    assert_eq!(cursor.position(), 0);
    assert_eq!(cursor.read_u8().unwrap(), 1);
    assert_eq!(cursor.read_exact(2).unwrap(), vec![2, 3]);
    assert_eq!(cursor.position(), 3);
    assert_eq!(cursor.remaining_len(), 0);
    assert!(matches!(cursor.read_u8(), Err(CodecError::Io(_))));
    assert_eq!(cursor.position(), 3);
    assert_eq!(cursor.into_inner(), vec![1, 2, 3]);
}

#[test]
fn read_exact_takes_all_or_nothing() {
    let mut cursor = Cursor::new(vec![1, 2, 3]);
    match cursor.read_exact(4) {
        Err(error) => {
            assert!(error.is_io());
            assert_eq!(error.message(), "unexpected end of input");
        }
        Ok(bytes) => panic!("unexpected: {:?}", bytes),
    }
    assert_eq!(cursor.position(), 0);
    assert_eq!(cursor.read_exact(0).unwrap(), Vec::<u8>::new());
    assert_eq!(cursor.read_exact(3).unwrap(), vec![1, 2, 3]);
}

#[test]
fn writes_replace_and_lengthen() {
    let mut cursor = Cursor::new(vec![1, 2, 3]);
    cursor.set_position(2);
    cursor.write_all(&[9, 8, 7]).unwrap();
    assert_eq!(cursor.position(), 5);
    assert_eq!(cursor.into_inner(), vec![1, 2, 9, 8, 7]);
}

#[test]
fn writes_beyond_the_end_fill_with_zeros() {
    let mut cursor = Cursor::new(vec![1]);
    cursor.set_position(3);
    assert_eq!(cursor.remaining_len(), 0);
    assert!(cursor.read_u8().is_err());
    cursor.write_all(&[5]).unwrap();
    assert_eq!(cursor.into_inner(), vec![1, 0, 0, 5]);
}

#[test]
fn write_that_cannot_be_addressed_changes_nothing() {
    let mut cursor = Cursor::new(vec![1, 2]);
    cursor.set_position(usize::MAX);
    match cursor.write_all(&[1]) {
        Err(CodecError::Io(_)) => {}
        other => panic!("unexpected: {:?}", other),
    }
    assert_eq!(cursor.position(), usize::MAX);
    assert_eq!(cursor.into_inner(), vec![1, 2]);
}
