use rust_messenger::mmap::linux::error::{ManagerError, MapError};

#[test]
fn manager_error_messages() {
    assert_eq!(ManagerError::ErrZeroLength.message(), "Minimum length must be greater than zero");
    assert_eq!(
        ManagerError::ErrInvalidFilename("Filename is a directory").message(),
        "Invalid filename error: Filename is a directory"
    );
    assert_eq!(ManagerError::ErrOverflow.message(), "Error overflowing variable");
    assert_eq!(ManagerError::ErrRemap.message(), "Error performing mmap");
    assert_eq!(ManagerError::ErrIsExtending.description(), "memory map manager error");
}

#[test]
fn io_error_becomes_invalid_filename() {
    let e = ManagerError::from(std::io::Error::new(std::io::ErrorKind::Other, "boom"));
    match e {
        ManagerError::ErrInvalidFilename(text) => assert_eq!(text, "\"{}\", _err"),
        _ => panic!("unexpected variant"),
    }
}

#[test]
fn map_error_messages() {
    assert_eq!(MapError::ErrInvalidFd.message(), "Invalid fd");
    assert_eq!(MapError::ErrUnknown(-12).message(), "Unknown error = -12");
    assert_eq!(MapError::ErrUnknown(7).message(), "Unknown error = 7");
    assert_eq!(MapError::ErrZeroLength.message(), "Zero-length mapping not allowed");
    assert_eq!(MapError::ErrNoMem.description(), "memory map error");
}
