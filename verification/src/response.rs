//! Response formatting.
//!
//! Each exchange ends in exactly one outcome — bad request, not found,
//! forbidden, or a served file — and each outcome has one literal wire
//! form: a bare newline-terminated status line for the errors; for a
//! served file the status line, a server identification line, the
//! `Content-Type` and `Content-Length` headers, a blank line, and the file
//! text verbatim. `Content-Length` is the UTF-8 byte length of the body,
//! not its character count.

use crate::content::ContentTag;
use crate::resolve::Resolution;
use crate::resolve::ResolutionView;
use vstd::prelude::*;
use vstd::string::StringSliceAdditionalSpecFns;
use vstd::utf8::encode_utf8;

verus! {

/// The terminal outcome of one request/response exchange.
#[derive(Debug, PartialEq)]
pub enum Outcome {
    BadRequest,
    NotFound,
    Forbidden,
    Served { body: String, tag: ContentTag },
}

/// [`Outcome`] at the specification level.
pub enum OutcomeView {
    BadRequest,
    NotFound,
    Forbidden,
    Served { body: Seq<char>, tag: ContentTag },
}

impl View for Outcome {
    type V = OutcomeView;

    open spec fn view(&self) -> OutcomeView {
        match self {
            Outcome::BadRequest => OutcomeView::BadRequest,
            Outcome::NotFound => OutcomeView::NotFound,
            Outcome::Forbidden => OutcomeView::Forbidden,
            Outcome::Served { body, tag } => OutcomeView::Served { body: body@, tag: *tag },
        }
    }
}

/// The outcome owed for a resolution: missing is not found, unreadable is
/// forbidden, a found file is served.
pub open spec fn outcome_of_resolution_view(r: ResolutionView) -> OutcomeView {
    match r {
        ResolutionView::Missing => OutcomeView::NotFound,
        ResolutionView::Unreadable => OutcomeView::Forbidden,
        ResolutionView::Found { body, tag } => OutcomeView::Served { body, tag },
    }
}

/// Turns a resolution into the outcome owed for it.
pub fn outcome_of_resolution(r: Resolution) -> (o: Outcome)
    ensures
        o@ == outcome_of_resolution_view(r@),
{
    match r {
        Resolution::Missing => Outcome::NotFound,
        Resolution::Unreadable => Outcome::Forbidden,
        Resolution::Found { body, tag } => Outcome::Served { body, tag },
    }
}

/// The HTTP status code of an outcome.
pub open spec fn status_code_of(o: OutcomeView) -> int {
    match o {
        OutcomeView::BadRequest => 400,
        OutcomeView::NotFound => 404,
        OutcomeView::Forbidden => 403,
        OutcomeView::Served { .. } => 200,
    }
}

/// The HTTP status code of an outcome.
pub fn status_code(o: &Outcome) -> (c: usize)
    ensures
        c as int == status_code_of(o@),
{
    match o {
        Outcome::BadRequest => 400,
        Outcome::NotFound => 404,
        Outcome::Forbidden => 403,
        Outcome::Served { .. } => 200,
    }
}

/// The decimal digit character for `d`.
pub open spec fn digit_char(d: nat) -> char
    recommends
        d < 10,
{
    if d == 0 {
        '0'
    } else if d == 1 {
        '1'
    } else if d == 2 {
        '2'
    } else if d == 3 {
        '3'
    } else if d == 4 {
        '4'
    } else if d == 5 {
        '5'
    } else if d == 6 {
        '6'
    } else if d == 7 {
        '7'
    } else if d == 8 {
        '8'
    } else {
        '9'
    }
}

/// The decimal digits of `n`, most significant first, without leading
/// zeroes (`0` itself is the single digit `0`).
pub open spec fn dec_str(n: nat) -> Seq<char>
    decreases n,
{
    if n < 10 {
        seq![digit_char(n)]
    } else {
        dec_str(n / 10) + seq![digit_char(n % 10)]
    }
}

/// The one-character string for decimal digit `d`.
fn digit_str(d: usize) -> (s: &'static str)
    requires
        d < 10,
    ensures
        s@ == seq![digit_char(d as nat)],
{
    let s: &'static str = if d == 0 {
        "0"
    } else if d == 1 {
        "1"
    } else if d == 2 {
        "2"
    } else if d == 3 {
        "3"
    } else if d == 4 {
        "4"
    } else if d == 5 {
        "5"
    } else if d == 6 {
        "6"
    } else if d == 7 {
        "7"
    } else if d == 8 {
        "8"
    } else {
        "9"
    };
    proof {
        reveal_strlit("0");
        reveal_strlit("1");
        reveal_strlit("2");
        reveal_strlit("3");
        reveal_strlit("4");
        reveal_strlit("5");
        reveal_strlit("6");
        reveal_strlit("7");
        reveal_strlit("8");
        reveal_strlit("9");
        assert(s@ =~= seq![digit_char(d as nat)]);
    }
    s
}

/// Writes `n` in decimal.
pub fn dec_string(n: usize) -> (s: String)
    ensures
        s@ == dec_str(n as nat),
    decreases n,
{
    if n < 10 {
        String::from_str(digit_str(n))
    } else {
        let mut s = dec_string(n / 10);
        s.append(digit_str(n % 10));
        proof {
            assert(s@ =~= dec_str((n / 10) as nat) + seq![digit_char((n % 10) as nat)]);
        }
        s
    }
}

/// The UTF-8 byte length of text.
pub open spec fn byte_len(s: Seq<char>) -> nat {
    encode_utf8(s).len()
}

/// The UTF-8 byte length of a string, for the `Content-Length` header.
pub fn text_byte_len(s: &String) -> (n: usize)
    ensures
        n as nat == byte_len(s@),
{
    let b = s.as_str().as_bytes();
    proof {
        assert(b@ == encode_utf8(s@));
    }
    b.len()
}

/// The tag's text in the `Content-Type` header.
pub open spec fn tag_text(t: ContentTag) -> Seq<char> {
    match t {
        ContentTag::Html => "html"@,
        ContentTag::Plain => "plain"@,
    }
}

/// The full wire form of an outcome.
pub open spec fn response_text(o: OutcomeView) -> Seq<char> {
    match o {
        OutcomeView::BadRequest => "HTTP/1.0 400 Bad Request\n"@,
        OutcomeView::NotFound => "HTTP/1.0 404 File Not Found\n"@,
        OutcomeView::Forbidden => "HTTP/1.0 403 Forbidden\n"@,
        OutcomeView::Served { body, tag } => "HTTP/1.0 200 OK\r\nWeb-Server/1.0\r\nContent-Type: text/"@
            + tag_text(tag) + "\r\nContent-Length: "@ + dec_str(byte_len(body)) + "\r\n\r\n"@
            + body,
    }
}

/// Formats an outcome for the wire.
pub fn format_response(o: &Outcome) -> (r: String)
    ensures
        r@ == response_text(o@),
{
    match o {
        Outcome::BadRequest => String::from_str("HTTP/1.0 400 Bad Request\n"),
        Outcome::NotFound => String::from_str("HTTP/1.0 404 File Not Found\n"),
        Outcome::Forbidden => String::from_str("HTTP/1.0 403 Forbidden\n"),
        Outcome::Served { body, tag } => {
            let mut r = String::from_str(
                "HTTP/1.0 200 OK\r\nWeb-Server/1.0\r\nContent-Type: text/",
            );
            match tag {
                ContentTag::Html => r.append("html"),
                ContentTag::Plain => r.append("plain"),
            }
            r.append("\r\nContent-Length: ");
            let len = text_byte_len(body);
            let len_digits = dec_string(len);
            r.append(len_digits.as_str());
            r.append("\r\n\r\n");
            r.append(body.as_str());
            proof {
                assert(r@ =~= response_text(o@));
            }
            r
        },
    }
}

} // verus!
