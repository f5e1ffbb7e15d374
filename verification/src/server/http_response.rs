use vstd::prelude::*;

use crate::http::http_header::{
    header_block, http_header_entry, is_header_block_line, parse, parse_header_line,
    valid_header_lines,
};
use crate::text::{
    decimal_int, is_word, lemma_decimal_i32_word, lemma_split_ws_skip_ws, lemma_split_ws_word_then,
    chars_eq_ignore_ascii_case, chars_of, eq_ignore_ascii_case, next_word, parse_i32,
    parse_i32_spec, parse_i64, parse_i64_spec, split_ws, substring,
};

verus! {

/// An HTTP response as read from an upstream server: its status line and its header block.
#[allow(non_camel_case_types)]
pub struct http_response_info {
    pub http_first_line: http_response_first_line,
    pub http_response_header: http_response_header,
}

/// The status line `VERSION CODE REASON` of a response.
#[allow(non_camel_case_types)]
pub struct http_response_first_line {
    pub protocol_version: String,
    pub http_status_code: i32,
    pub http_status: String,
    pub resonse: String,
}

/// The header block of a response. `content_length` holds what the field
/// `Content-Length` said; `headers` holds the fields other than
/// `Content-Length` and `Connection`, in order.
#[allow(non_camel_case_types)]
pub struct http_response_header {
    pub content_length: i64,
    pub headers: Vec<http_header_entry>,
    pub keep_alive: bool,
}

/// The mathematical value of a status line.
pub struct ResponseLineView {
    pub version: Seq<char>,
    pub status_code: i32,
    pub status: Seq<char>,
    pub line: Seq<char>,
}

/// The mathematical value of a response header block.
pub struct ResponseHeaderView {
    pub content_length: i64,
    pub headers: Seq<(Seq<char>, Seq<char>)>,
    pub keep_alive: bool,
}

/// The mathematical value of a response.
pub struct ResponseView {
    pub first_line: ResponseLineView,
    pub header: ResponseHeaderView,
}

impl View for http_response_first_line {
    type V = ResponseLineView;

    open spec fn view(&self) -> ResponseLineView {
        ResponseLineView {
            version: self.protocol_version@,
            status_code: self.http_status_code,
            status: self.http_status@,
            line: self.resonse@,
        }
    }
}

impl View for http_response_header {
    type V = ResponseHeaderView;

    open spec fn view(&self) -> ResponseHeaderView {
        ResponseHeaderView {
            content_length: self.content_length,
            headers: self.headers.deep_view(),
            keep_alive: self.keep_alive,
        }
    }
}

impl View for http_response_info {
    type V = ResponseView;

    open spec fn view(&self) -> ResponseView {
        ResponseView { first_line: self.http_first_line@, header: self.http_response_header@ }
    }
}

/// A status line that can be read: its second word is a status code that fits in `i32`.
pub open spec fn valid_status_line(line: Seq<char>) -> bool {
    let words = split_ws(line);
    words.len() >= 2 && parse_i32_spec(words[1]) is Some
}

/// The status line read from `line`: its first word (or nothing), the code
/// that its second word spells, its third word (or nothing), and the whole line.
pub open spec fn response_line_of(line: Seq<char>) -> ResponseLineView {
    let words = split_ws(line);
    ResponseLineView {
        version: if words.len() >= 1 {
            words[0]
        } else {
            Seq::empty()
        },
        status_code: parse_i32_spec(words[1])->0,
        status: if words.len() >= 3 {
            words[2]
        } else {
            Seq::empty()
        },
        line: line,
    }
}

/// The header block before any line was read.
pub open spec fn empty_response_header() -> ResponseHeaderView {
    ResponseHeaderView { content_length: -1i64, headers: Seq::empty(), keep_alive: false }
}

/// What one header field `name: value` does to a response header block.
pub open spec fn apply_response_field(
    h: ResponseHeaderView,
    name: Seq<char>,
    value: Seq<char>,
) -> ResponseHeaderView {
    if eq_ignore_ascii_case(name, "Content-Length"@) {
        ResponseHeaderView {
            content_length: match parse_i64_spec(value) {
                Some(n) => n,
                None => -1i64,
            },
            ..h
        }
    } else if eq_ignore_ascii_case(name, "Connection"@) {
        h
    } else {
        ResponseHeaderView { headers: h.headers.push((name, value)), ..h }
    }
}

/// What one line of the header block does to a response header block.
pub open spec fn apply_response_line(h: ResponseHeaderView, line: Seq<char>) -> ResponseHeaderView {
    match parse_header_line(line) {
        Some(field) => apply_response_field(h, field.0, field.1),
        None => h,
    }
}

/// The header block after the lines `lines` were read, one after another, into `h`.
pub open spec fn apply_response_lines(
    h: ResponseHeaderView,
    lines: Seq<Seq<char>>,
) -> ResponseHeaderView
    decreases lines.len(),
{
    if lines.len() == 0 {
        h
    } else {
        apply_response_line(apply_response_lines(h, lines.drop_last()), lines.last())
    }
}

impl http_response_info {
    pub fn new(
        http_first_line: http_response_first_line,
        http_response_header: http_response_header,
    ) -> (r: Self)
        ensures
            r@ == (ResponseView { first_line: http_first_line@, header: http_response_header@ }),
    {
        http_response_info { http_first_line, http_response_header }
    }
}

impl http_response_first_line {
    /// Reads a status line; its second word must be a status code.
    pub fn new(first_line: String) -> (r: Self)
        requires
            valid_status_line(first_line@),
        ensures
            r@ == response_line_of(first_line@),
    {
        let v = chars_of(first_line.as_str());
        assert(v@.skip(0) =~= v@);
        let (a0, b0) = next_word(&v, 0);
        let (a1, b1) = next_word(&v, b0);
        let (a2, b2) = next_word(&v, b1);
        let protocol_version = substring(first_line.as_str(), a0, b0);
        let code_chars = chars_of(substring(first_line.as_str(), a1, b1).as_str());
        let http_status_code = match parse_i32(&code_chars) {
            Some(c) => c,
            None => 0,
        };
        let http_status = if a2 < b2 {
            substring(first_line.as_str(), a2, b2)
        } else {
            String::new()
        };
        assert(a2 == b2 ==> http_status@ =~= Seq::<char>::empty());
        http_response_first_line { protocol_version, http_status_code, http_status, resonse: first_line }
    }
}

impl http_response_header {
    /// The header block before any line was read.
    pub fn empty() -> (r: Self)
        ensures
            r@ == empty_response_header(),
    {
        let headers0: Vec<http_header_entry> = Vec::new();
        let r = http_response_header { content_length: -1, headers: headers0, keep_alive: false };
        assert(r.headers.deep_view() =~= Seq::<(Seq<char>, Seq<char>)>::empty());
        r
    }

    /// The header block read from `header_lines`.
    pub fn new(header_lines: Vec<String>) -> (r: Self)
        requires
            valid_header_lines(header_lines.deep_view()),
        ensures
            r@ == apply_response_lines(empty_response_header(), header_lines.deep_view()),
    {
        let mut e = http_response_header::empty();
        let mut i: usize = 0;
        let ghost lines = header_lines.deep_view();
        while i < header_lines.len()
            invariant
                i <= header_lines.len(),
                lines == header_lines.deep_view(),
                valid_header_lines(lines),
                e@ == apply_response_lines(empty_response_header(), lines.take(i as int)),
            decreases header_lines.len() - i,
        {
            let line = header_lines[i].clone();
            assert(is_header_block_line(lines[i as int]));
            e.add_string(line);
            assert(lines.take(i + 1).drop_last() =~= lines.take(i as int));
            i = i + 1;
        }
        assert(lines.take(i as int) =~= lines);
        e
    }

    /// Reads one line of the header block into `self`. The line must be empty
    /// or a header field.
    pub fn add_string(&mut self, header_line: String)
        requires
            is_header_block_line(header_line@),
        ensures
            final(self)@ == apply_response_line(old(self)@, header_line@),
    {
        if header_line.as_str().is_empty() {
            return;
        }
        let header = match parse(header_line) {
            Some(h) => h,
            None => {
                return;
            },
        };
        let name = chars_of(header.name.as_str());
        if chars_eq_ignore_ascii_case(&name, "Content-Length") {
            let value = chars_of(header.value.as_str());
            self.content_length = match parse_i64(&value) {
                Some(n) => n,
                None => -1,
            };
        } else if chars_eq_ignore_ascii_case(&name, "Connection") {
        } else {
            let ghost old_headers = self.headers.deep_view();
            self.headers.push(header);
            assert(self.headers.deep_view() =~= old_headers.push(header@));
        }
    }
}

/// Reads the header block that `lines` begin with: the lines before the first
/// empty line (all of them where none is empty).
pub fn read_header(lines: &Vec<String>) -> (r: http_response_header)
    requires
        valid_header_lines(header_block(lines.deep_view())),
    ensures
        r@ == apply_response_lines(empty_response_header(), header_block(lines.deep_view())),
{
    let ghost all = lines.deep_view();
    let mut headers = http_response_header::empty();
    let mut i: usize = 0;
    assert(all.skip(0) =~= all);
    assert(all.take(0) =~= Seq::<Seq<char>>::empty());
    while i < lines.len() && !lines[i].as_str().is_empty()
        invariant
            i <= lines.len(),
            all == lines.deep_view(),
            valid_header_lines(header_block(all)),
            header_block(all) == all.take(i as int) + header_block(all.skip(i as int)),
            headers@ == apply_response_lines(empty_response_header(), all.take(i as int)),
        decreases lines.len() - i,
    {
        assert(all.skip(i as int).drop_first() =~= all.skip(i + 1));
        assert(all.take(i + 1) =~= all.take(i as int) + seq![all[i as int]]);
        assert(header_block(all) =~= all.take(i + 1) + header_block(all.skip(i + 1)));
        assert(header_block(all)[i as int] == all[i as int]);
        let line = lines[i].clone();
        headers.add_string(line);
        assert(all.take(i + 1).drop_last() =~= all.take(i as int));
        i = i + 1;
    }
    assert(header_block(all.skip(i as int)) =~= Seq::<Seq<char>>::empty());
    assert(header_block(all) =~= all.take(i as int));
    headers
}

/// Reads a response from its status line and the lines that follow it.
pub fn read_http_response_info(first_line: String, header_lines: &Vec<String>) -> (r:
    http_response_info)
    requires
        valid_status_line(first_line@),
        valid_header_lines(header_block(header_lines.deep_view())),
    ensures
        r@.first_line == response_line_of(first_line@),
        r@.header == apply_response_lines(
            empty_response_header(),
            header_block(header_lines.deep_view()),
        ),
{
    let first = http_response_first_line::new(first_line);
    let headers = read_header(header_lines);
    http_response_info::new(first, headers)
}

/// Law: reading the lines `a` and then the lines `b` into a response header
/// block gives what reading `a + b` at once gives.
pub proof fn law_response_lines_concat(
    h: ResponseHeaderView,
    a: Seq<Seq<char>>,
    b: Seq<Seq<char>>,
)
    ensures
        apply_response_lines(h, a + b) == apply_response_lines(apply_response_lines(h, a), b),
    decreases b.len(),
{
    if b.len() == 0 {
        assert(a + b =~= a);
    } else {
        law_response_lines_concat(h, a, b.drop_last());
        assert((a + b).drop_last() =~= a + b.drop_last());
        assert((a + b).last() == b.last());
    }
}

/// Law: the list of other fields of a response never holds a
/// `Content-Length` or `Connection` field, and a response header block is
/// never keep-alive, whatever lines were read.
pub proof fn law_response_special_fields_not_listed(lines: Seq<Seq<char>>)
    ensures
        !apply_response_lines(empty_response_header(), lines).keep_alive,
        forall|i: int|
            0 <= i < apply_response_lines(empty_response_header(), lines).headers.len() ==> {
                let name = #[trigger] apply_response_lines(empty_response_header(), lines).headers[i].0;
                !eq_ignore_ascii_case(name, "Content-Length"@) && !eq_ignore_ascii_case(
                    name,
                    "Connection"@,
                )
            },
    decreases lines.len(),
{
    if lines.len() > 0 {
        law_response_special_fields_not_listed(lines.drop_last());
    }
}

/// Law: an empty line (the one that ends a header block) changes nothing.
pub proof fn law_response_empty_line_changes_nothing(h: ResponseHeaderView)
    ensures
        apply_response_line(h, Seq::empty()) == h,
{
}

/// Law: a `Content-Length` field, whatever the ASCII case of its name, sets
/// the length to the number that its value spells, or to -1 where the value
/// is no `i64`; nothing else changes.
pub proof fn law_response_content_length_field(
    h: ResponseHeaderView,
    line: Seq<char>,
    n: Seq<char>,
    v: Seq<char>,
)
    requires
        parse_header_line(line) == Some((n, v)),
        eq_ignore_ascii_case(n, "Content-Length"@),
    ensures
        apply_response_line(h, line).content_length == match parse_i64_spec(v) {
            Some(x) => x,
            None => -1i64,
        },
        apply_response_line(h, line).headers == h.headers,
        apply_response_line(h, line).keep_alive == h.keep_alive,
{
}

/// Law: a `Connection` field (any ASCII case) changes nothing.
pub proof fn law_response_connection_field(
    h: ResponseHeaderView,
    line: Seq<char>,
    n: Seq<char>,
    v: Seq<char>,
)
    requires
        parse_header_line(line) == Some((n, v)),
        eq_ignore_ascii_case(n, "Connection"@),
    ensures
        apply_response_line(h, line) == h,
{
    reveal_strlit("Content-Length");
    reveal_strlit("Connection");
}

/// `line` is a header field other than `Content-Length` and `Connection`.
pub open spec fn is_response_listed_line(line: Seq<char>) -> bool {
    match parse_header_line(line) {
        Some(f) => !eq_ignore_ascii_case(f.0, "Content-Length"@) && !eq_ignore_ascii_case(
            f.0,
            "Connection"@,
        ),
        None => false,
    }
}

/// Law: any other field is appended to the list, after the fields already
/// there, and changes nothing else.
pub proof fn law_response_other_field(h: ResponseHeaderView, line: Seq<char>)
    requires
        is_response_listed_line(line),
    ensures
        apply_response_line(h, line).headers.len() == h.headers.len() + 1,
        apply_response_line(h, line).headers.take(h.headers.len() as int) == h.headers,
        apply_response_line(h, line).headers.last() == parse_header_line(line)->0,
        apply_response_line(h, line).content_length == h.content_length,
        apply_response_line(h, line).keep_alive == h.keep_alive,
{
    let f = parse_header_line(line)->0;
    assert(h.headers.push(f).take(h.headers.len() as int) =~= h.headers);
}

/// Law: reading lines that are all fields other than `Content-Length` and
/// `Connection` lists exactly those fields, one per line, in the order of the
/// lines, and leaves the length at -1.
pub proof fn law_response_other_fields_listed(lines: Seq<Seq<char>>)
    requires
        forall|i: int| 0 <= i < lines.len() ==> is_response_listed_line(#[trigger] lines[i]),
    ensures
        apply_response_lines(empty_response_header(), lines).headers.len() == lines.len(),
        forall|i: int|
            0 <= i < lines.len() ==> apply_response_lines(empty_response_header(), lines).headers[i]
                == (#[trigger] parse_header_line(lines[i]))->0,
        apply_response_lines(empty_response_header(), lines).content_length == -1,
    decreases lines.len(),
{
    if lines.len() > 0 {
        let rest = lines.drop_last();
        assert forall|i: int| 0 <= i < rest.len() implies is_response_listed_line(
            #[trigger] rest[i],
        ) by {
            assert(rest[i] == lines[i]);
        }
        law_response_other_fields_listed(rest);
        let prev = apply_response_lines(empty_response_header(), rest);
        let last = lines[lines.len() - 1];
        assert(is_response_listed_line(last));
        law_response_other_field(prev, last);
        let cur = apply_response_lines(empty_response_header(), lines);
        assert forall|i: int|
            0 <= i < lines.len() implies cur.headers[i] == (#[trigger] parse_header_line(
                lines[i],
            ))->0 by {
            if i < rest.len() {
                assert(cur.headers.take(prev.headers.len() as int)[i] == prev.headers[i]);
                assert(rest[i] == lines[i]);
            }
        }
    }
}

/// Law: a status line `VERSION CODE REASON` made of a version word, the
/// decimal text of a code and a reason word reads back as that version, that
/// code and that reason.
pub proof fn law_status_line_round_trip(v: Seq<char>, c: i32, r: Seq<char>)
    requires
        is_word(v),
        is_word(r),
    ensures
        valid_status_line(v + " "@ + decimal_int(c as int) + " "@ + r),
        response_line_of(v + " "@ + decimal_int(c as int) + " "@ + r) == (ResponseLineView {
            version: v,
            status_code: c,
            status: r,
            line: v + " "@ + decimal_int(c as int) + " "@ + r,
        }),
{
    reveal_strlit(" ");
    let d = decimal_int(c as int);
    lemma_decimal_i32_word(c);
    let empty = Seq::<char>::empty();
    assert(split_ws(empty) =~= Seq::<Seq<char>>::empty());
    lemma_split_ws_word_then(r, empty);
    assert(r + empty =~= r);
    lemma_split_ws_skip_ws(' ', r);
    lemma_split_ws_word_then(d, seq![' '] + r);
    let t1 = d + (seq![' '] + r);
    lemma_split_ws_skip_ws(' ', t1);
    lemma_split_ws_word_then(v, seq![' '] + t1);
    let line = v + " "@ + d + " "@ + r;
    assert(line =~= v + (seq![' '] + t1));
    assert(split_ws(line) =~= seq![v, d, r]);
}

} // verus!
