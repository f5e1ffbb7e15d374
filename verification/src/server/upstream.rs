use vstd::prelude::*;
use vstd::string::StringExecFns;

use crate::http::http_header::http_header_entry;
use crate::server::config::{RelayConnectionInfo, RelayView};
use crate::server::http_request::{
    http_request_first_line, http_request_header, RequestHeaderView, RequestLineView,
};
use crate::http::http_header::parse_header_line;
use crate::server::http_request::{apply_request_line, request_line_of};
use crate::text::{eq_ignore_ascii_case, lemma_trim_of_trimmed, parse_i64_spec, trim, law_parse_i64_decimal};
use crate::text::{
    decimal_int, is_ws, is_word, lemma_split_ws_all_ws, lemma_split_ws_skip_ws,
    lemma_split_ws_word_then, lemma_split_ws_words, push_decimal_i64, split_ws,
};

verus! {

broadcast use vstd::string::group_string_axioms;

/// The request line that the upstream server is sent: `METHOD URI VERSION` and CRLF.
pub open spec fn first_line_text(l: RequestLineView) -> Seq<char> {
    l.method + " "@ + l.uri + " "@ + l.version + "\r\n"@
}

/// The header fields `fields`, each as `name: value` and CRLF, in order.
pub open spec fn fields_text(fields: Seq<(Seq<char>, Seq<char>)>) -> Seq<char>
    decreases fields.len(),
{
    if fields.len() == 0 {
        Seq::empty()
    } else {
        fields_text(fields.drop_last()) + fields.last().0 + ": "@ + fields.last().1 + "\r\n"@
    }
}

/// The header block that the upstream server is sent: `Host` naming the
/// relay host (where there is one), `Content-Length` (where the request
/// announced a positive length), the request's other fields, and the empty
/// line that ends the block.
pub open spec fn headers_text(relay: RelayView, h: RequestHeaderView) -> Seq<char> {
    (if relay.host.len() > 0 {
        "Host: "@ + relay.host + "\r\n"@
    } else {
        Seq::empty()
    }) + (if h.content_length > 0 {
        "Content-Length: "@ + decimal_int(h.content_length as int) + "\r\n"@
    } else {
        Seq::empty()
    }) + fields_text(h.headers) + "\r\n"@
}

/// The text of the request line that the upstream server is sent.
pub fn send_first_line(first_line: &http_request_first_line) -> (r: String)
    ensures
        r@ == first_line_text(first_line@),
{
    let mut out = first_line.method.clone();
    out.append(" ");
    out.append(first_line.uri.as_str());
    out.append(" ");
    out.append(first_line.protool_version.as_str());
    out.append("\r\n");
    out
}

/// The text of the header block that the upstream server is sent.
pub fn send_headers(relay: &RelayConnectionInfo, header: &http_request_header) -> (r: String)
    ensures
        r@ == headers_text(relay@, header@),
{
    let mut out = String::new();
    if !relay.host.as_str().is_empty() {
        out.append("Host: ");
        out.append(relay.host.as_str());
        out.append("\r\n");
    }
    if header.content_length > 0 {
        out.append("Content-Length: ");
        push_decimal_i64(&mut out, header.content_length);
        out.append("\r\n");
    }
    let ghost start = out@;
    let headers = &header.headers;
    let mut i: usize = 0;
    while i < headers.len()
        invariant
            i <= headers.len(),
            out@ == start + fields_text(headers.deep_view().take(i as int)),
        decreases headers.len() - i,
    {
        let entry: &http_header_entry = &headers[i];
        out.append(entry.name.as_str());
        out.append(": ");
        out.append(entry.value.as_str());
        out.append("\r\n");
        assert(headers.deep_view().take(i + 1).drop_last() =~= headers.deep_view().take(i as int));
        assert(out@ =~= start + fields_text(headers.deep_view().take(i + 1)));
        i = i + 1;
    }
    assert(headers.deep_view().take(i as int) =~= headers.deep_view());
    out.append("\r\n");
    assert(out@ =~= headers_text(relay@, header@));
    out
}

/// One step of sending the request body: after a chunk of `size` bytes went
/// out, how many bytes are still to be sent, and whether the transfer goes on
/// (while that number is positive).
pub fn send_body_step(unsend_data_length: i64, size: usize) -> (r: (i64, bool))
    requires
        unsend_data_length > 0,
        size <= i64::MAX,
    ensures
        r.0 == unsend_data_length - size,
        r.1 == (r.0 > 0),
{
    let left = unsend_data_length - size as i64;
    (left, left > 0)
}

/// Law: the request line that the upstream server is sent reads back as the
/// same method, URI and version that were read from the client.
pub proof fn law_first_line_round_trip(line: Seq<char>)
    requires
        split_ws(line).len() >= 3,
    ensures
        split_ws(first_line_text(request_line_of(line))).len() == 3,
        request_line_of(first_line_text(request_line_of(line))).method == request_line_of(
            line,
        ).method,
        request_line_of(first_line_text(request_line_of(line))).uri == request_line_of(line).uri,
        request_line_of(first_line_text(request_line_of(line))).version == request_line_of(
            line,
        ).version,
{
    lemma_split_ws_words(line);
    let l = request_line_of(line);
    let m = l.method;
    let u = l.uri;
    let v = l.version;
    assert(is_word(split_ws(line)[0]));
    assert(is_word(split_ws(line)[1]));
    assert(is_word(split_ws(line)[2]));
    reveal_strlit(" ");
    reveal_strlit("\r\n");
    let crlf: Seq<char> = "\r\n"@;
    let t3 = crlf;
    assert(is_ws(crlf[0]) && is_ws(crlf[1]));
    lemma_split_ws_all_ws(t3);
    lemma_split_ws_word_then(v, t3);
    let t2 = v + t3;
    lemma_split_ws_skip_ws(' ', t2);
    lemma_split_ws_word_then(u, seq![' '] + t2);
    let t1 = u + (seq![' '] + t2);
    lemma_split_ws_skip_ws(' ', t1);
    lemma_split_ws_word_then(m, seq![' '] + t1);
    assert(first_line_text(l) =~= m + (seq![' '] + t1));
    let words = split_ws(first_line_text(l));
    assert(words =~= seq![m, u, v]);
}

/// Law: the header block sent upstream carries a `Content-Length` line
/// exactly when the request announced a positive length. Where the length is
/// zero or negative (-1: the request had no `Content-Length` field), the block
/// is the `Host` line (where the relay names a host), one line per other field,
/// and the empty line; otherwise the `Content-Length` line with the length in
/// decimal stands between the `Host` line and the fields.
pub proof fn law_headers_text_length_line(relay: RelayView, h: RequestHeaderView)
    ensures
        h.content_length <= 0 ==> headers_text(relay, h) == (if relay.host.len() > 0 {
            "Host: "@ + relay.host + "\r\n"@
        } else {
            Seq::<char>::empty()
        }) + fields_text(h.headers) + "\r\n"@,
        h.content_length > 0 ==> headers_text(relay, h) == (if relay.host.len() > 0 {
            "Host: "@ + relay.host + "\r\n"@
        } else {
            Seq::<char>::empty()
        }) + "Content-Length: "@ + decimal_int(h.content_length as int) + "\r\n"@ + fields_text(
            h.headers,
        ) + "\r\n"@,
{
    let host_part = if relay.host.len() > 0 {
        "Host: "@ + relay.host + "\r\n"@
    } else {
        Seq::<char>::empty()
    };
    if h.content_length <= 0 {
        assert(host_part + Seq::<char>::empty() =~= host_part);
    } else {
        let cl = "Content-Length: "@ + decimal_int(h.content_length as int) + "\r\n"@;
        assert(host_part + cl + fields_text(h.headers) + "\r\n"@ =~= host_part + "Content-Length: "@
            + decimal_int(h.content_length as int) + "\r\n"@ + fields_text(h.headers) + "\r\n"@);
    }
}

/// Law: the `Content-Length` line sent upstream (without its line end), read
/// back as a request header line, gives the length that was sent.
pub proof fn law_content_length_line_round_trip(h: RequestHeaderView, n: i64)
    ensures
        apply_request_line(h, "Content-Length: "@ + decimal_int(n as int)).content_length == n,
{
    reveal_strlit("Content-Length: ");
    reveal_strlit("Content-Length");
    reveal_strlit("Host");
    reveal_strlit("X-Forwarded-Host");
    let d = decimal_int(n as int);
    law_parse_i64_decimal(n);
    crate::text::lemma_decimal_int_word(n as int);
    let line = "Content-Length: "@ + d;
    crate::http::http_header::lemma_first_colon(line, 14);
    assert(line.take(14) =~= "Content-Length"@);
    lemma_trim_of_trimmed("Content-Length"@);
    let rest = line.skip(15);
    assert(rest =~= seq![' '] + d);
    assert(rest.drop_first() =~= d);
    assert(crate::text::trim_start(rest) == crate::text::trim_start(d));
    lemma_trim_of_trimmed(d);
    assert(parse_header_line(line) == Some(("Content-Length"@, d)));
    assert(eq_ignore_ascii_case("Content-Length"@, "Content-Length"@));
}

/// Law: the text of several fields is the texts of the fields one after
/// another, in order: the fields of `a` then those of `b`.
pub proof fn law_fields_text_concat(a: Seq<(Seq<char>, Seq<char>)>, b: Seq<(Seq<char>, Seq<char>)>)
    ensures
        fields_text(a + b) == fields_text(a) + fields_text(b),
    decreases b.len(),
{
    if b.len() == 0 {
        assert(a + b =~= a);
        assert(fields_text(a) + Seq::<char>::empty() =~= fields_text(a));
    } else {
        law_fields_text_concat(a, b.drop_last());
        assert((a + b).drop_last() =~= a + b.drop_last());
        assert((a + b).last() == b.last());
        let l = b.last().0 + ": "@ + b.last().1 + "\r\n"@;
        assert(fields_text(a) + fields_text(b.drop_last()) + l =~= fields_text(a) + (fields_text(
            b.drop_last(),
        ) + l));
    }
}

/// Law: one field is sent as the line `name: value` and a line end.
pub proof fn law_fields_text_one(name: Seq<char>, value: Seq<char>)
    ensures
        fields_text(seq![(name, value)]) == crate::http::http_header::header_line_text(name, value)
            + "\r\n"@,
{
    let e = Seq::<(Seq<char>, Seq<char>)>::empty();
    assert(seq![(name, value)].drop_last() =~= e);
    assert(fields_text(e) == Seq::<char>::empty());
    assert(seq![(name, value)].last() == (name, value));
    assert(Seq::<char>::empty() + name + ": "@ + value + "\r\n"@ =~= name + ": "@ + value + "\r\n"@);
}

} // verus!
