use basilisk::Error;

#[test]
fn error_display() {
    let err = Error::Pty("spawn failed".into());
    assert_eq!(err.to_string(), "PTY error: spawn failed");
}

#[test]
fn error_from_io() {
    let io_err = std::io::Error::new(std::io::ErrorKind::NotFound, "file not found");
    let err: Error = io_err.into();
    assert!(matches!(err, Error::Io(_)));
}

#[test]
fn error_io_display() {
    let io_err = std::io::Error::new(std::io::ErrorKind::NotFound, "file not found");
    let err: Error = io_err.into();
    assert_eq!(err.to_string(), "IO error: file not found");
}
