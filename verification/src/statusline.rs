//! The status line function of the plugin. The editor hands out its current
//! buffer as an extension value whose payload is the buffer's number in
//! MessagePack; the status line is an expression that sets the highlight
//! groups for that buffer.
use crate::value::{as_ext, debug, debug_text, ext_parts, from_text, text_value};
use rmp::decode::NumValueReadError;
use rmp_rpc::Value;
use vstd::prelude::*;
use vstd::string::*;

verus! {

/// What a request to the peer comes to. The outer error is a response that
/// never came, the inner one an error that the peer answered with.
pub open spec fn response(outcome: Result<Result<Value, Value>, ()>) -> Result<Value, Value> {
    match outcome {
        Ok(Ok(value)) => Ok(value),
        Ok(Err(e)) => Err(text_value("error response: "@ + debug_text(e))),
        Err(_) => Err(text_value("error while receiving response: ()"@)),
    }
}

/// Settles the outcome of a request to the peer: the value it answered with,
/// or an error value that says what went wrong.
pub fn unwrap_response(outcome: Result<Result<Value, Value>, ()>) -> (r: Result<Value, Value>)
    ensures
        r == response(outcome),
{
    match outcome {
        Ok(Ok(value)) => Ok(value),
        Ok(Err(e)) => {
            let mut message = String::from_str("error response: ");
            message.append(debug(&e).as_str());
            Err(from_text(message.as_str()))
        },
        Err(_) => Err(from_text("error while receiving response: ()")),
    }
}

/// `rmp::decode::NumValueReadError`: why no number could be read.
#[verifier::external_type_specification]
#[verifier::external_body]
pub struct ExNumValueReadError(rmp::decode::NumValueReadError);

/// The unsigned number that stands in MessagePack at the front of `bytes`;
/// `None` where the bytes start with no whole integer, or with one below
/// zero.
pub uninterp spec fn packed_uint(bytes: Seq<u8>) -> Option<u64>;

/// `rmp::decode::read_int` for a `u64` out of a byte slice: it reads one
/// marker and the integer that belongs to it, of any width and sign, and
/// fails where the bytes end too early, the marker is not of an integer, or
/// the integer does not fit. What it returns depends on the bytes alone.
#[verifier::external_body]
fn read_uint(bytes: &[u8]) -> (r: Result<u64, NumValueReadError>)
    ensures
        match r {
            Ok(n) => packed_uint(bytes@) == Some(n),
            Err(_) => packed_uint(bytes@) is None,
        },
{
    let mut rest = bytes;
    rmp::decode::read_int(&mut rest)
}

/// Why a value is no buffer of the editor.
#[derive(Debug, Clone, Copy, PartialEq, Eq)]
pub enum BufferError {
    /// The value is no extension value.
    NotExt,
    /// The payload does not start with an unsigned number.
    NotANumber,
}

/// The number of the buffer `buf`.
pub open spec fn buf_number(buf: Value) -> Result<u64, BufferError> {
    match ext_parts(buf) {
        Some((_, payload)) => match packed_uint(payload) {
            Some(number) => Ok(number),
            None => Err(BufferError::NotANumber),
        },
        None => Err(BufferError::NotExt),
    }
}

/// Reads the number of a buffer out of the value that stands for it.
pub fn get_buf_number(buf: &Value) -> (r: Result<u64, BufferError>)
    ensures
        r == buf_number(*buf),
{
    match as_ext(buf) {
        Some((_, payload)) => match read_uint(payload) {
            Ok(number) => Ok(number),
            Err(_) => Err(BufferError::NotANumber),
        },
        None => Err(BufferError::NotExt),
    }
}

/// The character of the digit `d`.
pub open spec fn digit(d: nat) -> char
    recommends
        d < 10,
{
    "0123456789"@[d as int]
}

/// `n` in decimal digits, without leading zeros.
pub open spec fn decimal(n: nat) -> Seq<char>
    decreases n,
{
    if n < 10 {
        seq![digit(n)]
    } else {
        decimal(n / 10).push(digit(n % 10))
    }
}

/// The text of one digit.
fn digit_text(d: u64) -> (s: &'static str)
    requires
        d < 10,
    ensures
        s@ == seq![digit(d as nat)],
{
    proof {
        reveal_strlit("0123456789");
        reveal_strlit("0");
        reveal_strlit("1");
        reveal_strlit("2");
        reveal_strlit("3");
        reveal_strlit("4");
        reveal_strlit("5");
        reveal_strlit("6");
        reveal_strlit("7");
        reveal_strlit("8");
        reveal_strlit("9");
    }
    let s = if d == 0 {
        "0"
    } else if d == 1 {
        "1"
    } else if d == 2 {
        "2"
    } else if d == 3 {
        "3"
    } else if d == 4 {
        "4"
    } else if d == 5 {
        "5"
    } else if d == 6 {
        "6"
    } else if d == 7 {
        "7"
    } else if d == 8 {
        "8"
    } else {
        "9"
    };
    assert(s@ =~= seq![digit(d as nat)]);
    s
}

/// Writes `n` in decimal digits.
pub fn decimal_text(n: u64) -> (s: String)
    ensures
        s@ == decimal(n as nat),
    decreases n,
{
    if n < 10 {
        String::from_str(digit_text(n))
    } else {
        let mut s = decimal_text(n / 10);
        s.append(digit_text(n % 10));
        s
    }
}

/// The status line for the buffer of number `active`.
pub open spec fn status_line(active: nat) -> Seq<char> {
    "%{SetHighlightGroups("@ + decimal(active) + ")}"@
}

/// Writes the status line for the buffer of number `active`:
/// `%{SetHighlightGroups(<active>)}`.
pub fn status_line_text(active: u64) -> (s: String)
    ensures
        s@ == status_line(active as nat),
{
    let mut s = String::from_str("%{SetHighlightGroups(");
    let number = decimal_text(active);
    s.append(number.as_str());
    s.append(")}");
    s
}

/// The answer of the status line function to the editor's current buffer.
pub fn build_status_line(buf: &Value) -> (r: Result<Value, BufferError>)
    ensures
        match r {
            Ok(value) => buf_number(*buf) matches Ok(active) && value == text_value(
                status_line(active as nat),
            ),
            Err(e) => buf_number(*buf) == Err::<u64, BufferError>(e),
        },
{
    match get_buf_number(buf) {
        Ok(active) => Ok(from_text(status_line_text(active).as_str())),
        Err(e) => Err(e),
    }
}

} // verus!
