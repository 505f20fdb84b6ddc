use sazparser::signature::{check_file_validity, get_filetype, ZipValidity};
use sazparser::SazError;

#[test]
fn archive_signature_is_valid() {
    assert_eq!(get_filetype(b"PK\x03\x04rest of the archive"), ZipValidity::Valid);
    assert_eq!(check_file_validity(b"PK\x03\x04"), Ok(()));
}

#[test]
fn empty_signature_is_empty() {
    assert_eq!(get_filetype(b"PK\x05\x06\0\0\0\0"), ZipValidity::Empty);
    assert_eq!(check_file_validity(b"PK\x05\x06\0\0\0\0"), Err(SazError::Empty));
}

#[test]
fn spanned_signature_is_spanned() {
    assert_eq!(get_filetype(b"PK\x07\x08PK\x03\x04"), ZipValidity::Spanned);
    assert_eq!(check_file_validity(b"PK\x07\x08PK\x03\x04"), Err(SazError::Spanned));
}

#[test]
fn other_prefix_is_invalid() {
    assert_eq!(get_filetype(b"GET / HTTP/1.1"), ZipValidity::Invalid);
    assert_eq!(get_filetype(b"PK\x03\x05"), ZipValidity::Invalid);
    assert_eq!(get_filetype(b"PK\x01\x02"), ZipValidity::Invalid);
    assert_eq!(get_filetype(&[0, 0, 0, 0]), ZipValidity::Invalid);
    assert_eq!(check_file_validity(b"\x04\x03KP"), Err(SazError::Invalid));
}

#[test]
fn short_input_is_read_error() {
    assert_eq!(get_filetype(b""), ZipValidity::ReadError);
    assert_eq!(get_filetype(b"P"), ZipValidity::ReadError);
    assert_eq!(get_filetype(b"PK\x03"), ZipValidity::ReadError);
    assert_eq!(check_file_validity(b"PK\x03"), Err(SazError::Error));
}

#[test]
fn only_the_first_four_bytes_count() {
    assert_eq!(get_filetype(b"PK\x03\x04"), get_filetype(b"PK\x03\x04\xff\xff\xff"));
    assert_eq!(get_filetype(b"xxPK\x03\x04"), ZipValidity::Invalid);
}

#[test]
fn error_messages() {
    assert_eq!(SazError::Empty.message(), "SAZ file is empty");
    assert_eq!(SazError::Spanned.message(), "SAZ file is spanned");
    assert_eq!(SazError::Invalid.message(), "SAZ file is invalid");
    assert_eq!(SazError::Error.message(), "Error reading file");
}
