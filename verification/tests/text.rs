use stack_buf_io::text::{append_to_string, read_to_string};
use stack_buf_io::{Error, ErrorKind};

#[test]
fn valid_bytes_are_appended() {
    let mut text = String::from("ab");
    assert_eq!(append_to_string::<&str>(&mut text, "c\u{e9}".as_bytes(), Ok(3)), Ok(3));
    assert_eq!(text, "abc\u{e9}");
}

#[test]
fn invalid_bytes_are_not_appended() {
    let mut text = String::from("ab");
    assert_eq!(append_to_string::<&str>(&mut text, &[b'c', 0xff], Ok(2)), Err(Error::InvalidData));
    assert_eq!(text, "ab");
    assert_eq!(
        append_to_string(&mut text, &[b'c', 0xff], Err(Error::Inner("broken"))),
        Err(Error::Inner("broken"))
    );
    assert_eq!(text, "ab");
    assert_eq!(append_to_string::<&str>(&mut text, &[0xc3], Ok(1)), Err(Error::InvalidData));
    assert_eq!(append_to_string::<&str>(&mut text, &[0xed, 0xa0, 0x80], Ok(3)), Err(Error::InvalidData));
    assert_eq!(append_to_string::<&str>(&mut text, &[0xc0, 0x80], Ok(2)), Err(Error::InvalidData));
    assert_eq!(text, "ab");
}

#[test]
fn an_empty_string_keeps_what_came_before_an_error() {
    let mut text = String::new();
    assert_eq!(
        read_to_string(&mut text, b"abc", Err(Error::Inner("broken"))),
        Err(Error::Inner("broken"))
    );
    assert_eq!(text, "abc");
}

#[test]
fn another_string_does_not_change_on_an_error() {
    let mut text = String::from("x");
    assert_eq!(
        read_to_string(&mut text, b"abc", Err(Error::Inner("broken"))),
        Err(Error::Inner("broken"))
    );
    assert_eq!(text, "x");
    assert_eq!(
        read_to_string::<&str>(&mut text, b"abc", Err(Error::OutOfMemory)),
        Err(Error::OutOfMemory)
    );
    assert_eq!(text, "x");
}

#[test]
fn a_string_that_was_read_well_is_appended() {
    let mut text = String::new();
    assert_eq!(read_to_string::<&str>(&mut text, "\u{20ac}".as_bytes(), Ok(3)), Ok(3));
    assert_eq!(read_to_string::<&str>(&mut text, b"abc", Ok(3)), Ok(3));
    assert_eq!(text, "\u{20ac}abc");
    assert_eq!(read_to_string::<&str>(&mut text, &[0x80], Ok(1)), Err(Error::InvalidData));
    assert_eq!(text, "\u{20ac}abc");
    let mut text = String::new();
    assert_eq!(read_to_string::<&str>(&mut text, &[0x80], Ok(1)), Err(Error::InvalidData));
    assert_eq!(text, "");
}

#[test]
fn errors_of_the_buffers_have_a_kind_and_a_message() {
    let e: Error<&str> = Error::WriteZero;
    assert_eq!(e.kind(), Some(ErrorKind::WriteZero));
    assert_eq!(e.message(), Some("failed to write the buffered data"));
    let e: Error<&str> = Error::UnexpectedEof;
    assert_eq!(e.kind(), Some(ErrorKind::UnexpectedEof));
    assert_eq!(e.message(), Some("failed to fill whole buffer"));
    let e: Error<&str> = Error::InvalidData;
    assert_eq!(e.kind(), Some(ErrorKind::InvalidData));
    assert_eq!(e.message(), Some("stream did not contain valid UTF-8"));
    let e: Error<&str> = Error::OutOfMemory;
    assert_eq!(e.kind(), Some(ErrorKind::OutOfMemory));
    assert_eq!(e.message(), None);
    assert_eq!(Error::Inner("broken").kind(), None);
    assert_eq!(Error::Inner("broken").message(), None);
}
