use rmp_rpc::{Utf8String, Value};
use vim_statusline::statusline::{
    build_status_line, decimal_text, get_buf_number, status_line_text, unwrap_response,
    BufferError,
};

fn buffer(payload: &[u8]) -> Value {
    Value::Ext(0, payload.to_vec())
}

#[test]
fn buffer_number_is_read_from_the_payload() {
    assert_eq!(get_buf_number(&buffer(&[0x00])), Ok(0));
    assert_eq!(get_buf_number(&buffer(&[0x05])), Ok(5));
    assert_eq!(get_buf_number(&buffer(&[0x7f])), Ok(127));
    assert_eq!(get_buf_number(&buffer(&[0xcc, 0xff])), Ok(255));
    assert_eq!(get_buf_number(&buffer(&[0xcd, 0x01, 0x00])), Ok(256));
    assert_eq!(get_buf_number(&buffer(&[0xce, 0x00, 0x01, 0x00, 0x00])), Ok(65536));
    assert_eq!(get_buf_number(&buffer(&[0xcf, 0xff, 0xff, 0xff, 0xff, 0xff, 0xff, 0xff, 0xff])), Ok(u64::MAX));
}

#[test]
fn buffer_number_may_be_packed_as_a_signed_integer() {
    assert_eq!(get_buf_number(&buffer(&[0xd0, 0x7f])), Ok(127));
    assert_eq!(get_buf_number(&buffer(&[0xd1, 0x01, 0x00])), Ok(256));
    assert_eq!(get_buf_number(&buffer(&[0xd3, 0, 0, 0, 0, 0, 0, 0, 9])), Ok(9));
}

#[test]
fn extension_type_and_trailing_bytes_do_not_matter() {
    assert_eq!(get_buf_number(&Value::Ext(1, vec![0x05])), Ok(5));
    assert_eq!(get_buf_number(&Value::Ext(-3, vec![0x05])), Ok(5));
    assert_eq!(get_buf_number(&buffer(&[0x05, 0xff, 0xc0])), Ok(5));
}

#[test]
fn negative_numbers_are_no_buffer_numbers() {
    assert_eq!(get_buf_number(&buffer(&[0xff])), Err(BufferError::NotANumber));
    assert_eq!(get_buf_number(&buffer(&[0xd0, 0x80])), Err(BufferError::NotANumber));
}

#[test]
fn payload_that_is_no_integer_is_refused() {
    assert_eq!(get_buf_number(&buffer(&[])), Err(BufferError::NotANumber));
    assert_eq!(get_buf_number(&buffer(&[0xc0])), Err(BufferError::NotANumber));
    assert_eq!(get_buf_number(&buffer(&[0xa1, 0x35])), Err(BufferError::NotANumber));
    assert_eq!(get_buf_number(&buffer(&[0xcd, 0x01])), Err(BufferError::NotANumber));
    assert_eq!(get_buf_number(&buffer(&[0xcf, 0, 0, 0])), Err(BufferError::NotANumber));
}

#[test]
fn value_that_is_no_extension_is_refused() {
    assert_eq!(get_buf_number(&Value::from(5)), Err(BufferError::NotExt));
    assert_eq!(get_buf_number(&Value::Nil), Err(BufferError::NotExt));
    assert_eq!(get_buf_number(&Value::Binary(vec![0x05])), Err(BufferError::NotExt));
    assert_eq!(get_buf_number(&Value::Array(vec![buffer(&[0x05])])), Err(BufferError::NotExt));
}

#[test]
fn decimal_text_writes_digits() {
    assert_eq!(decimal_text(0), "0");
    assert_eq!(decimal_text(7), "7");
    assert_eq!(decimal_text(9), "9");
    assert_eq!(decimal_text(10), "10");
    assert_eq!(decimal_text(99), "99");
    assert_eq!(decimal_text(100), "100");
    assert_eq!(decimal_text(1234567890), "1234567890");
    assert_eq!(decimal_text(u64::MAX), "18446744073709551615");
}

#[test]
fn decimal_text_agrees_with_the_standard_library() {
    let mut n: u64 = 1;
    for _ in 0..64 {
        assert_eq!(decimal_text(n), n.to_string());
        assert_eq!(decimal_text(n - 1), (n - 1).to_string());
        n = n.wrapping_mul(3).wrapping_add(1);
    }
}

#[test]
fn status_line_sets_the_highlight_groups() {
    assert_eq!(status_line_text(3), "%{SetHighlightGroups(3)}");
    assert_eq!(status_line_text(0), "%{SetHighlightGroups(0)}");
    assert_eq!(status_line_text(1024), "%{SetHighlightGroups(1024)}");
}

#[test]
fn status_line_is_built_for_the_buffer() {
    let expected = Value::String(Utf8String::from("%{SetHighlightGroups(42)}"));
    assert_eq!(build_status_line(&buffer(&[0x2a])), Ok(expected));
    assert_eq!(build_status_line(&buffer(&[])), Err(BufferError::NotANumber));
    assert_eq!(build_status_line(&Value::from(42)), Err(BufferError::NotExt));
}

#[test]
fn response_of_the_peer_is_handed_on() {
    assert_eq!(unwrap_response(Ok(Ok(buffer(&[0x01])))), Ok(buffer(&[0x01])));
    assert_eq!(unwrap_response(Ok(Ok(Value::Nil))), Ok(Value::Nil));
}

#[test]
fn error_of_the_peer_is_put_in_words() {
    let said = |text: &str| Err(Value::String(Utf8String::from(text)));
    assert_eq!(unwrap_response(Ok(Err(Value::Nil))), said("error response: Nil"));
    assert_eq!(unwrap_response(Ok(Err(Value::Boolean(false)))), said("error response: Boolean(false)"));
    let error = Value::Array(vec![Value::from(1), Value::from("no")]);
    assert_eq!(unwrap_response(Ok(Err(error.clone()))), said(&format!("error response: {:?}", error)));
}

#[test]
fn response_that_never_came_is_an_error() {
    let expected = Value::String(Utf8String::from("error while receiving response: ()"));
    assert_eq!(unwrap_response(Err(())), Err(expected));
}
