use rfpm::Content;

#[test]
fn content_from_vec() {
    let c: Content = vec![1, 2, 3].into();
    assert_eq!(c.read_all(), vec![1, 2, 3]);
    // Can read again.
    assert_eq!(c.read_all(), vec![1, 2, 3]);
}

#[test]
fn content_from_string() {
    let c: Content = "hello".to_string().into();
    assert_eq!(c.read_string().unwrap(), "hello");
    assert_eq!(c.read_string().unwrap(), "hello");
}

#[test]
fn content_new_escape_hatch() {
    let c = Content::new(b"test data".to_vec());
    assert_eq!(c.read_all(), b"test data");
}

#[test]
fn content_read_string_invalid_utf8() {
    let c: Content = vec![0xFF, 0xFE].into();
    assert!(c.read_string().is_err());
}

#[test]
fn content_read_string_error_is_invalid_data() {
    let c: Content = vec![b'a', 0xC3].into();
    let err = c.read_string().unwrap_err();
    assert_eq!(err.kind(), std::io::ErrorKind::InvalidData);
}

#[test]
fn content_string_bytes_are_utf8() {
    let c: Content = "h\u{e9}".to_string().into();
    assert_eq!(c.read_all(), vec![b'h', 0xC3, 0xA9]);
    assert_eq!(c.read_string().unwrap(), "h\u{e9}");
}

#[test]
fn content_empty() {
    let c = Content::new(Vec::new());
    assert!(c.read_all().is_empty());
    assert_eq!(c.read_string().unwrap(), "");
}
