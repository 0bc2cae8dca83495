use ioat::IoError;

#[test]
fn transient_kind_is_the_only_retried_one() {
    assert!(IoError::Interrupted.is_transient());
    assert!(!IoError::UnexpectedEof.is_transient());
    assert!(!IoError::WriteZero.is_transient());
    assert!(!IoError::Other.is_transient());
}

#[test]
fn kinds_are_distinct() {
    assert_ne!(IoError::Interrupted, IoError::UnexpectedEof);
    assert_ne!(IoError::UnexpectedEof, IoError::WriteZero);
    assert_ne!(IoError::WriteZero, IoError::Other);
    assert_ne!(IoError::Interrupted, IoError::Other);
}
