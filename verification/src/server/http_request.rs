use vstd::prelude::*;

use crate::http::http_header::{
    header_block, http_header_entry, is_header_block_line, parse, parse_header_line,
    valid_header_lines,
};
use crate::text::{
    chars_eq_ignore_ascii_case, chars_of, eq_ignore_ascii_case, next_word, parse_i64,
    parse_i64_spec, split_ws, substring,
};

verus! {

/// An HTTP request as read from a client: its request line and its header block.
#[allow(non_camel_case_types)]
pub struct http_request_info {
    pub http_first_line: http_request_first_line,
    pub http_request_header: http_request_header,
}

/// The request line `METHOD URI VERSION` of a request.
#[allow(non_camel_case_types)]
pub struct http_request_first_line {
    pub method: String,
    pub uri: String,
    pub protool_version: String,
    pub request: String,
}

/// The header block of a request. `host`, `content_length` and `keep_alive`
/// hold what the fields `Host`, `X-Forwarded-Host`, `Content-Length` and
/// `Connection` said; `headers` holds the other fields, in order.
#[allow(non_camel_case_types)]
pub struct http_request_header {
    pub host: String,
    pub content_length: i64,
    pub keep_alive: bool,
    pub headers: Vec<http_header_entry>,
}

/// The mathematical value of a request line.
pub struct RequestLineView {
    pub method: Seq<char>,
    pub uri: Seq<char>,
    pub version: Seq<char>,
    pub line: Seq<char>,
}

/// The mathematical value of a request header block.
pub struct RequestHeaderView {
    pub host: Seq<char>,
    pub content_length: i64,
    pub keep_alive: bool,
    pub headers: Seq<(Seq<char>, Seq<char>)>,
}

/// The mathematical value of a request.
pub struct RequestView {
    pub first_line: RequestLineView,
    pub header: RequestHeaderView,
}

impl View for http_request_first_line {
    type V = RequestLineView;

    open spec fn view(&self) -> RequestLineView {
        RequestLineView {
            method: self.method@,
            uri: self.uri@,
            version: self.protool_version@,
            line: self.request@,
        }
    }
}

impl View for http_request_header {
    type V = RequestHeaderView;

    open spec fn view(&self) -> RequestHeaderView {
        RequestHeaderView {
            host: self.host@,
            content_length: self.content_length,
            keep_alive: self.keep_alive,
            headers: self.headers.deep_view(),
        }
    }
}

impl View for http_request_info {
    type V = RequestView;

    open spec fn view(&self) -> RequestView {
        RequestView { first_line: self.http_first_line@, header: self.http_request_header@ }
    }
}

/// The request line read from `line`: its first three words, and the whole line.
pub open spec fn request_line_of(line: Seq<char>) -> RequestLineView {
    let words = split_ws(line);
    RequestLineView { method: words[0], uri: words[1], version: words[2], line: line }
}

/// The header block before any line was read.
pub open spec fn empty_request_header() -> RequestHeaderView {
    RequestHeaderView {
        host: Seq::empty(),
        content_length: -1i64,
        keep_alive: false,
        headers: Seq::empty(),
    }
}

/// What one header field `name: value` does to a request header block.
pub open spec fn apply_request_field(
    h: RequestHeaderView,
    name: Seq<char>,
    value: Seq<char>,
) -> RequestHeaderView {
    if eq_ignore_ascii_case(name, "Host"@) {
        if h.host.len() == 0 {
            RequestHeaderView { host: value, ..h }
        } else {
            h
        }
    } else if eq_ignore_ascii_case(name, "X-Forwarded-Host"@) {
        RequestHeaderView { host: value, ..h }
    } else if eq_ignore_ascii_case(name, "Content-Length"@) {
        RequestHeaderView {
            content_length: match parse_i64_spec(value) {
                Some(n) => n,
                None => -1i64,
            },
            ..h
        }
    } else if eq_ignore_ascii_case(name, "Connection"@) {
        if eq_ignore_ascii_case(value, "keep-alive"@) {
            RequestHeaderView { keep_alive: true, ..h }
        } else {
            h
        }
    } else {
        RequestHeaderView { headers: h.headers.push((name, value)), ..h }
    }
}

/// What one line of the header block does to a request header block: an
/// empty line nothing, a header field what `apply_request_field` says.
pub open spec fn apply_request_line(h: RequestHeaderView, line: Seq<char>) -> RequestHeaderView {
    match parse_header_line(line) {
        Some(field) => apply_request_field(h, field.0, field.1),
        None => h,
    }
}

/// The header block after the lines `lines` were read, one after another, into `h`.
pub open spec fn apply_request_lines(
    h: RequestHeaderView,
    lines: Seq<Seq<char>>,
) -> RequestHeaderView
    decreases lines.len(),
{
    if lines.len() == 0 {
        h
    } else {
        apply_request_line(apply_request_lines(h, lines.drop_last()), lines.last())
    }
}

impl http_request_info {
    pub fn new(
        first_line_string: http_request_first_line,
        header_lines: http_request_header,
    ) -> (r: Self)
        ensures
            r@ == (RequestView { first_line: first_line_string@, header: header_lines@ }),
    {
        http_request_info { http_first_line: first_line_string, http_request_header: header_lines }
    }
}

impl http_request_first_line {
    /// Reads a request line; it must hold at least three words.
    pub fn new(first_line: String) -> (r: Self)
        requires
            split_ws(first_line@).len() >= 3,
        ensures
            r@ == request_line_of(first_line@),
    {
        let v = chars_of(first_line.as_str());
        assert(v@.skip(0) =~= v@);
        let (a0, b0) = next_word(&v, 0);
        let (a1, b1) = next_word(&v, b0);
        let (a2, b2) = next_word(&v, b1);
        let method = substring(first_line.as_str(), a0, b0);
        let uri = substring(first_line.as_str(), a1, b1);
        let protool_version = substring(first_line.as_str(), a2, b2);
        http_request_first_line { method, uri, protool_version, request: first_line }
    }
}

impl http_request_header {
    /// The header block before any line was read.
    pub fn empty() -> (r: Self)
        ensures
            r@ == empty_request_header(),
    {
        let headers0: Vec<http_header_entry> = Vec::new();
        let r = http_request_header {
            host: String::new(),
            content_length: -1i64,
            keep_alive: false,
            headers: headers0,
        };
        assert(r.headers.deep_view() =~= Seq::<(Seq<char>, Seq<char>)>::empty());
        r
    }

    /// The header block read from `header_lines`.
    pub fn new(header_lines: Vec<String>) -> (r: Self)
        requires
            valid_header_lines(header_lines.deep_view()),
        ensures
            r@ == apply_request_lines(empty_request_header(), header_lines.deep_view()),
    {
        let mut e = http_request_header::empty();
        let mut i: usize = 0;
        let ghost lines = header_lines.deep_view();
        while i < header_lines.len()
            invariant
                i <= header_lines.len(),
                lines == header_lines.deep_view(),
                valid_header_lines(lines),
                e@ == apply_request_lines(empty_request_header(), lines.take(i as int)),
            decreases header_lines.len() - i,
        {
            let line = header_lines[i].clone();
            assert(is_header_block_line(lines[i as int]));
            e.add_string(line);
            assert(lines.take(i + 1).drop_last() =~= lines.take(i as int));
            i = i + 1;
        }
        assert(lines.take(i as int) =~= lines);
        e
    }

    /// Reads one line of the header block into `self`. The line must be empty
    /// or a header field.
    pub fn add_string(&mut self, header_line: String)
        requires
            is_header_block_line(header_line@),
        ensures
            final(self)@ == apply_request_line(old(self)@, header_line@),
    {
        if header_line.as_str().is_empty() {
            return;
        }
        let header = match parse(header_line) {
            Some(h) => h,
            None => {
                return;
            },
        };
        let name = chars_of(header.name.as_str());
        if chars_eq_ignore_ascii_case(&name, "Host") {
            if self.host.as_str().is_empty() {
                self.host = header.value;
            }
        } else if chars_eq_ignore_ascii_case(&name, "X-Forwarded-Host") {
            self.host = header.value;
        } else if chars_eq_ignore_ascii_case(&name, "Content-Length") {
            let value = chars_of(header.value.as_str());
            self.content_length = match parse_i64(&value) {
                Some(n) => n,
                None => -1i64,
            };
        } else if chars_eq_ignore_ascii_case(&name, "Connection") {
            let value = chars_of(header.value.as_str());
            if chars_eq_ignore_ascii_case(&value, "keep-alive") {
                self.keep_alive = true;
            }
        } else {
            let ghost old_headers = self.headers.deep_view();
            self.headers.push(header);
            assert(self.headers.deep_view() =~= old_headers.push(header@));
        }
    }
}

/// Reads the header block that `lines` begin with: the lines before the first
/// empty line (all of them where none is empty).
pub fn read_header(lines: &Vec<String>) -> (r: http_request_header)
    requires
        valid_header_lines(header_block(lines.deep_view())),
    ensures
        r@ == apply_request_lines(empty_request_header(), header_block(lines.deep_view())),
{
    let ghost all = lines.deep_view();
    let mut headers = http_request_header::empty();
    let mut i: usize = 0;
    assert(all.skip(0) =~= all);
    assert(all.take(0) =~= Seq::<Seq<char>>::empty());
    while i < lines.len() && !lines[i].as_str().is_empty()
        invariant
            i <= lines.len(),
            all == lines.deep_view(),
            valid_header_lines(header_block(all)),
            header_block(all) == all.take(i as int) + header_block(all.skip(i as int)),
            headers@ == apply_request_lines(empty_request_header(), all.take(i as int)),
        decreases lines.len() - i,
    {
        assert(all.skip(i as int).drop_first() =~= all.skip(i + 1));
        assert(all.take(i + 1) =~= all.take(i as int) + seq![all[i as int]]);
        assert(header_block(all) =~= all.take(i + 1) + header_block(all.skip(i + 1)));
        assert(header_block(all)[i as int] == all[i as int]);
        let line = lines[i].clone();
        headers.add_string(line);
        assert(all.take(i + 1).drop_last() =~= all.take(i as int));
        i = i + 1;
    }
    assert(header_block(all.skip(i as int)) =~= Seq::<Seq<char>>::empty());
    assert(header_block(all) =~= all.take(i as int));
    headers
}

/// Reads a request from its request line and the lines that follow it.
pub fn read_http_request(first_line: String, header_lines: &Vec<String>) -> (r: http_request_info)
    requires
        split_ws(first_line@).len() >= 3,
        valid_header_lines(header_block(header_lines.deep_view())),
    ensures
        r@.first_line == request_line_of(first_line@),
        r@.header == apply_request_lines(empty_request_header(), header_block(header_lines.deep_view())),
{
    let first = http_request_first_line::new(first_line);
    let headers = read_header(header_lines);
    http_request_info::new(first, headers)
}

/// The header fields that a request header block keeps apart from its list.
pub open spec fn is_request_special_field(name: Seq<char>) -> bool {
    ||| eq_ignore_ascii_case(name, "Host"@)
    ||| eq_ignore_ascii_case(name, "X-Forwarded-Host"@)
    ||| eq_ignore_ascii_case(name, "Content-Length"@)
    ||| eq_ignore_ascii_case(name, "Connection"@)
}

/// Law: reading the lines `a` and then the lines `b` into a header block
/// gives what reading `a + b` at once gives; so `new` on some lines followed
/// by `add_string` on the rest agrees with `new` on all of them.
pub proof fn law_request_lines_concat(h: RequestHeaderView, a: Seq<Seq<char>>, b: Seq<Seq<char>>)
    ensures
        apply_request_lines(h, a + b) == apply_request_lines(apply_request_lines(h, a), b),
    decreases b.len(),
{
    if b.len() == 0 {
        assert(a + b =~= a);
    } else {
        law_request_lines_concat(h, a, b.drop_last());
        assert((a + b).drop_last() =~= a + b.drop_last());
        assert((a + b).last() == b.last());
    }
}

/// Law: the list of other fields never holds a `Host`, `X-Forwarded-Host`,
/// `Content-Length` or `Connection` field, whatever lines were read.
pub proof fn law_request_special_fields_not_listed(lines: Seq<Seq<char>>)
    ensures
        forall|i: int|
            0 <= i < apply_request_lines(empty_request_header(), lines).headers.len()
                ==> !is_request_special_field(
                #[trigger] apply_request_lines(empty_request_header(), lines).headers[i].0,
            ),
    decreases lines.len(),
{
    if lines.len() > 0 {
        law_request_special_fields_not_listed(lines.drop_last());
        let prev = apply_request_lines(empty_request_header(), lines.drop_last());
        let cur = apply_request_lines(empty_request_header(), lines);
        assert(cur == apply_request_line(prev, lines.last()));
        match parse_header_line(lines.last()) {
            Some(f) => {
                if is_request_special_field(f.0) {
                    assert(cur.headers == prev.headers);
                } else {
                    assert(cur.headers == prev.headers.push(f));
                }
            },
            None => {},
        }
        assert forall|i: int| 0 <= i < cur.headers.len() implies !is_request_special_field(
            #[trigger] cur.headers[i].0,
        ) by {
            if i < prev.headers.len() {
                assert(cur.headers[i] == prev.headers[i]);
            }
        }
    }
}

/// Law: once a `Connection: keep-alive` field was read, the header block
/// stays keep-alive whatever lines follow.
pub proof fn law_request_keep_alive_stays(h: RequestHeaderView, lines: Seq<Seq<char>>)
    requires
        h.keep_alive,
    ensures
        apply_request_lines(h, lines).keep_alive,
    decreases lines.len(),
{
    if lines.len() > 0 {
        law_request_keep_alive_stays(h, lines.drop_last());
    }
}

/// Law: an empty line (the one that ends a header block) changes nothing.
pub proof fn law_request_empty_line_changes_nothing(h: RequestHeaderView)
    ensures
        apply_request_line(h, Seq::empty()) == h,
{
}

/// Law: a `Host` field (any ASCII case) names the host only where none was
/// named yet; nothing else changes.
pub proof fn law_request_host_field(h: RequestHeaderView, line: Seq<char>, n: Seq<char>, v: Seq<char>)
    requires
        parse_header_line(line) == Some((n, v)),
        eq_ignore_ascii_case(n, "Host"@),
    ensures
        apply_request_line(h, line) == (if h.host.len() == 0 {
            RequestHeaderView { host: v, ..h }
        } else {
            h
        }),
{
}

/// Law: an `X-Forwarded-Host` field (any ASCII case) names the host, over
/// whatever was named before; nothing else changes.
pub proof fn law_request_forwarded_host_field(
    h: RequestHeaderView,
    line: Seq<char>,
    n: Seq<char>,
    v: Seq<char>,
)
    requires
        parse_header_line(line) == Some((n, v)),
        eq_ignore_ascii_case(n, "X-Forwarded-Host"@),
    ensures
        apply_request_line(h, line) == (RequestHeaderView { host: v, ..h }),
{
    reveal_strlit("Host");
    reveal_strlit("X-Forwarded-Host");
    reveal_strlit("Content-Length");
    reveal_strlit("Connection");
}

/// Law: a `Content-Length` field, whatever the ASCII case of its name, sets
/// the length to the number that its value spells, or to -1 where the value
/// is no `i64`; nothing else changes.
pub proof fn law_request_content_length_field(
    h: RequestHeaderView,
    line: Seq<char>,
    n: Seq<char>,
    v: Seq<char>,
)
    requires
        parse_header_line(line) == Some((n, v)),
        eq_ignore_ascii_case(n, "Content-Length"@),
    ensures
        apply_request_line(h, line).content_length == match parse_i64_spec(v) {
            Some(x) => x,
            None => -1i64,
        },
        apply_request_line(h, line).host == h.host,
        apply_request_line(h, line).keep_alive == h.keep_alive,
        apply_request_line(h, line).headers == h.headers,
{
    reveal_strlit("Host");
    reveal_strlit("X-Forwarded-Host");
    reveal_strlit("Content-Length");
    reveal_strlit("Connection");
}

/// Law: a `Connection` field (any ASCII case) makes the request keep-alive
/// where its value is `keep-alive` (any ASCII case), and changes nothing else.
pub proof fn law_request_connection_field(
    h: RequestHeaderView,
    line: Seq<char>,
    n: Seq<char>,
    v: Seq<char>,
)
    requires
        parse_header_line(line) == Some((n, v)),
        eq_ignore_ascii_case(n, "Connection"@),
    ensures
        apply_request_line(h, line).keep_alive == (h.keep_alive || eq_ignore_ascii_case(
            v,
            "keep-alive"@,
        )),
        apply_request_line(h, line).host == h.host,
        apply_request_line(h, line).content_length == h.content_length,
        apply_request_line(h, line).headers == h.headers,
{
    reveal_strlit("Host");
    reveal_strlit("X-Forwarded-Host");
    reveal_strlit("Content-Length");
    reveal_strlit("Connection");
}

/// Law: any other field is appended to the list, after the fields already
/// there, and changes nothing else.
pub proof fn law_request_other_field(
    h: RequestHeaderView,
    line: Seq<char>,
    n: Seq<char>,
    v: Seq<char>,
)
    requires
        parse_header_line(line) == Some((n, v)),
        !is_request_special_field(n),
    ensures
        apply_request_line(h, line).headers.len() == h.headers.len() + 1,
        apply_request_line(h, line).headers.take(h.headers.len() as int) == h.headers,
        apply_request_line(h, line).headers.last() == (n, v),
        apply_request_line(h, line).host == h.host,
        apply_request_line(h, line).content_length == h.content_length,
        apply_request_line(h, line).keep_alive == h.keep_alive,
{
    assert(h.headers.push((n, v)).take(h.headers.len() as int) =~= h.headers);
}

/// `line` is a header field other than `Host`, `X-Forwarded-Host`,
/// `Content-Length` and `Connection`.
pub open spec fn is_request_listed_line(line: Seq<char>) -> bool {
    match parse_header_line(line) {
        Some(f) => !is_request_special_field(f.0),
        None => false,
    }
}

/// Law: reading lines that are all fields other than `Host`,
/// `X-Forwarded-Host`, `Content-Length` and `Connection` lists exactly those
/// fields, one per line, in the order of the lines.
pub proof fn law_request_other_fields_listed(lines: Seq<Seq<char>>)
    requires
        forall|i: int| 0 <= i < lines.len() ==> is_request_listed_line(#[trigger] lines[i]),
    ensures
        apply_request_lines(empty_request_header(), lines).headers.len() == lines.len(),
        forall|i: int|
            0 <= i < lines.len() ==> apply_request_lines(empty_request_header(), lines).headers[i]
                == (#[trigger] parse_header_line(lines[i]))->0,
        apply_request_lines(empty_request_header(), lines).host.len() == 0,
        apply_request_lines(empty_request_header(), lines).content_length == -1,
        !apply_request_lines(empty_request_header(), lines).keep_alive,
    decreases lines.len(),
{
    if lines.len() > 0 {
        let rest = lines.drop_last();
        assert forall|i: int| 0 <= i < rest.len() implies is_request_listed_line(#[trigger] rest[i]) by {
            assert(rest[i] == lines[i]);
        }
        law_request_other_fields_listed(rest);
        let prev = apply_request_lines(empty_request_header(), rest);
        let last = lines[lines.len() - 1];
        assert(is_request_listed_line(last));
        let f = parse_header_line(last)->0;
        law_request_other_field(prev, last, f.0, f.1);
        let cur = apply_request_lines(empty_request_header(), lines);
        assert forall|i: int|
            0 <= i < lines.len() implies cur.headers[i] == (#[trigger] parse_header_line(
                lines[i],
            ))->0 by {
            if i < rest.len() {
                assert(cur.headers.take(prev.headers.len() as int)[i] == prev.headers[i]);
                assert(rest[i] == lines[i]);
            }
        }
    }
}

} // verus!
