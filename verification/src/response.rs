//! Response wire format: every reply is a status line, a `Content-Length`
//! header computed from the exact byte length of the body, a blank line, and
//! the body itself.

use vstd::prelude::*;
use vstd::string::*;

verus! {

/// The decimal digit character for a value below ten.
pub open spec fn digit_char(d: nat) -> char {
    if d == 0 {
        '0'
    } else if d == 1 {
        '1'
    } else if d == 2 {
        '2'
    } else if d == 3 {
        '3'
    } else if d == 4 {
        '4'
    } else if d == 5 {
        '5'
    } else if d == 6 {
        '6'
    } else if d == 7 {
        '7'
    } else if d == 8 {
        '8'
    } else {
        '9'
    }
}

/// The usual decimal rendering of `n`: no leading zeros, most significant
/// digit first.
pub open spec fn dec_chars(n: nat) -> Seq<char>
    decreases n,
{
    if n < 10 {
        seq![digit_char(n)]
    } else {
        dec_chars(n / 10).push(digit_char(n % 10))
    }
}

fn digit_str(d: u8) -> (r: &'static str)
    requires
        d < 10,
    ensures
        r@ == seq![digit_char(d as nat)],
{
    let r: &'static str = if d == 0 {
        "0"
    } else if d == 1 {
        "1"
    } else if d == 2 {
        "2"
    } else if d == 3 {
        "3"
    } else if d == 4 {
        "4"
    } else if d == 5 {
        "5"
    } else if d == 6 {
        "6"
    } else if d == 7 {
        "7"
    } else if d == 8 {
        "8"
    } else {
        "9"
    };
    proof {
        reveal_strlit("0");
        reveal_strlit("1");
        reveal_strlit("2");
        reveal_strlit("3");
        reveal_strlit("4");
        reveal_strlit("5");
        reveal_strlit("6");
        reveal_strlit("7");
        reveal_strlit("8");
        reveal_strlit("9");
        assert(r@ =~= seq![digit_char(d as nat)]);
    }
    r
}

/// Renders `n` in decimal.
pub fn u64_to_dec(n: u64) -> (r: String)
    ensures
        r@ == dec_chars(n as nat),
    decreases n,
{
    if n < 10 {
        digit_str(n as u8).to_owned()
    } else {
        let mut prefix = u64_to_dec(n / 10);
        prefix.append(digit_str((n % 10) as u8));
        proof {
            assert(prefix@ =~= dec_chars(n as nat));
        }
        prefix
    }
}

/// The full reply for a body that is served with the fixed `200 OK` status
/// line: header section, blank line, then the body. `content_length` is the
/// byte length of the body (its UTF-8 encoding), not its character count.
pub open spec fn ok_response(body: Seq<char>, content_length: nat) -> Seq<char> {
    "HTTP/1.1 200 OK\r\nContent-Length: "@ + dec_chars(content_length) + "\r\n\r\n"@ + body
}

/// Wraps a body in the fixed `200 OK` envelope with its exact byte length
/// advertised as `Content-Length`.
pub fn format_response(body: &str) -> (r: String)
    ensures
        r@ == ok_response(body@, body.len() as nat),
{
    let mut r = String::from_str("HTTP/1.1 200 OK\r\nContent-Length: ");
    let len = body.len();
    let digits = u64_to_dec(len as u64);
    r.append(digits.as_str());
    r.append("\r\n\r\n");
    r.append(body);
    proof {
        assert(r@ =~= ok_response(body@, body.len() as nat));
    }
    r
}

} // verus!
