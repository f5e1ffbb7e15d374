use vstd::prelude::*;
use vstd::string::StringExecFns;
use vstd::utf8::encode_utf8;

use crate::server::config::HttpResponse;
use crate::text::{all_digits, decimal, decimal_int, is_digit, push_decimal, push_decimal_i64};

verus! {

broadcast use {vstd::string::group_string_axioms, vstd::slice::group_slice_axioms};

/// The status codes that this server answers with of its own.
#[derive(PartialEq, Eq, Structural, Clone, Copy, Debug)]
pub enum HttpStatus {
    Success,
    NotFound,
}

impl HttpStatus {
    pub open spec fn code(self) -> i32 {
        match self {
            HttpStatus::Success => 200,
            HttpStatus::NotFound => 404,
        }
    }

    pub open spec fn reason(self) -> Seq<char> {
        match self {
            HttpStatus::Success => "OK"@,
            HttpStatus::NotFound => "Not Found"@,
        }
    }

    /// The numeric status code.
    pub fn get(&self) -> (r: i32)
        ensures
            r == self.code(),
    {
        match self {
            HttpStatus::Success => 200,
            HttpStatus::NotFound => 404,
        }
    }

    /// The reason phrase.
    pub fn get_as_string(&self) -> (r: &'static str)
        ensures
            r@ == self.reason(),
    {
        match self {
            HttpStatus::Success => "OK",
            HttpStatus::NotFound => "Not Found",
        }
    }
}

/// A complete response with status `status`, the header fields `Date` and
/// `Content-Length` (the length of `body` in UTF-8 bytes), and `body`.
pub open spec fn response_text(status: HttpStatus, date: Seq<char>, body: Seq<char>) -> Seq<char> {
    "HTTP/1.1 "@ + decimal_int(status.code() as int) + " "@ + status.reason() + "\r\n"@
        + "Date: "@ + date + " \r\n"@ + "Content-Length: "@ + decimal(encode_utf8(body).len())
        + "\r\n"@ + "\r\n"@ + body + "\r\n"@
}

/// Writes the response with status `status`, date `date` and body `body`.
pub fn write_response(status: HttpStatus, date: &str, body: &str) -> (r: String)
    ensures
        r@ == response_text(status, date@, body@),
{
    let code = status.get();
    let string = status.get_as_string();
    let mut out = "HTTP/1.1 ".to_owned();
    push_decimal_i64(&mut out, code as i64);
    out.append(" ");
    out.append(string);
    out.append("\r\n");
    out.append("Date: ");
    out.append(date);
    out.append(" \r\n");
    out.append("Content-Length: ");
    let length = body.as_bytes().len();
    push_decimal(&mut out, length as u64);
    out.append("\r\n");
    out.append("\r\n");
    out.append(body);
    out.append("\r\n");
    assert(out@ =~= response_text(status, date@, body@));
    out
}

/// `s` holds no CR and no LF, so it can stand inside one header line.
pub open spec fn no_line_break(s: Seq<char>) -> bool {
    forall|i: int| 0 <= i < s.len() ==> #[trigger] s[i] != '\r' && s[i] != '\n'
}

/// `s[i]` and `s[i + 1]` are decimal digits.
pub open spec fn two_digits(s: Seq<char>, i: int) -> bool {
    is_digit(s[i]) && is_digit(s[i + 1])
}

/// A date `YYYY-MM-DD`; a year outside `0..=9999` is written with its sign
/// and at least four digits.
pub open spec fn is_date_text(d: Seq<char>) -> bool {
    let n = d.len() as int;
    let y = d.take(n - 6);
    &&& n >= 10
    &&& d[n - 6] == '-'
    &&& two_digits(d, n - 5)
    &&& d[n - 3] == '-'
    &&& two_digits(d, n - 2)
    &&& ((y.len() == 4 && all_digits(y)) || (y.len() >= 5 && (y[0] == '+' || y[0] == '-')
        && all_digits(y.drop_first())))
}

/// A time `HH:MM:SS`, followed by `.` and three, six or nine digits where
/// the time has a fraction of a second.
pub open spec fn is_time_text(t: Seq<char>) -> bool {
    &&& (t.len() == 8 || t.len() == 12 || t.len() == 15 || t.len() == 18)
    &&& two_digits(t, 0)
    &&& t[2] == ':'
    &&& two_digits(t, 3)
    &&& t[5] == ':'
    &&& two_digits(t, 6)
    &&& t.len() > 8 ==> t[8] == '.' && all_digits(t.skip(9))
}

/// A UTC offset `+HH:MM` or `-HH:MM`, with `:SS` where it has seconds.
pub open spec fn is_offset_text(z: Seq<char>) -> bool {
    &&& (z.len() == 6 || z.len() == 9)
    &&& (z[0] == '+' || z[0] == '-')
    &&& two_digits(z, 1)
    &&& z[3] == ':'
    &&& two_digits(z, 4)
    &&& z.len() == 9 ==> z[6] == ':' && two_digits(z, 7)
}

/// Local date, time and offset, separated by single spaces, as chrono's
/// `Display` for `DateTime<Local>` writes them.
pub open spec fn is_date_time_text(s: Seq<char>) -> bool {
    exists|d: Seq<char>, t: Seq<char>, z: Seq<char>|
        #![trigger is_date_text(d), is_time_text(t), is_offset_text(z)]
        s == d + seq![' '] + t + seq![' '] + z && is_date_text(d) && is_time_text(t)
            && is_offset_text(z)
}

/// The current local date and time, as `chrono::Local::now()` displays it.
///
/// Calls `chrono::Local::now` and formats the result with the `Display` impl of
/// `DateTime`. That impl writes the local date (`NaiveDate`), a space, the
/// local time (`NaiveTime`), a space and the offset (`FixedOffset`); the
/// contract claims that shape, and that the text holds no line break. Which
/// date and time it names is not stated: that depends on the clock and the
/// time zone.
#[verifier::external_body]
pub(crate) fn local_now_text() -> (r: String)
    ensures
        is_date_time_text(r@),
        no_line_break(r@),
{
    format!("{}", chrono::Local::now())
}

/// The body of the answer to a request that no rule relays.
pub open spec fn not_found_body() -> Seq<char> {
    "<html><body><h1>Not Found</h1></body></html>"@
}

/// The answer to a request that no rule relays, dated now.
pub fn not_found() -> (r: String)
    ensures
        exists|date: Seq<char>|
            is_date_time_text(date) && no_line_break(date) && r@ == response_text(HttpStatus::NotFound, date, not_found_body()),
{
    HttpResponse::NotFound.response()
}

} // verus!
