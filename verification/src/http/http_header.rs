use vstd::prelude::*;

use crate::text::{
    chars_of, is_ws, lemma_trim_facts, substring, trim, trim_bounds, trim_end, trim_start,
};

verus! {

/// One header field of an HTTP message: its name and its value.
#[allow(non_camel_case_types)]
pub struct http_header_entry {
    pub name: String,
    pub value: String,
}

impl View for http_header_entry {
    type V = (Seq<char>, Seq<char>);

    open spec fn view(&self) -> (Seq<char>, Seq<char>) {
        (self.name@, self.value@)
    }
}

impl DeepView for http_header_entry {
    type V = (Seq<char>, Seq<char>);

    open spec fn deep_view(&self) -> (Seq<char>, Seq<char>) {
        self@
    }
}

/// `k` is the position of the first `:` in `s`.
pub open spec fn is_first_colon(s: Seq<char>, k: int) -> bool {
    &&& 0 <= k < s.len()
    &&& s[k] == ':'
    &&& forall|j: int| 0 <= j < k ==> s[j] != ':'
}

pub open spec fn has_colon(s: Seq<char>) -> bool {
    exists|k: int| 0 <= k < s.len() && s[k] == ':'
}

/// The position of the first `:` in `s` (meaningful where `has_colon(s)`).
pub open spec fn first_colon(s: Seq<char>) -> int {
    choose|k: int| is_first_colon(s, k)
}

/// A header line `name: value` read as a header field: the name is what stands
/// before the first `:`, the value what follows it, both without surrounding
/// whitespace. A line without `:` is no header field.
pub open spec fn parse_header_line(line: Seq<char>) -> Option<(Seq<char>, Seq<char>)> {
    if has_colon(line) {
        let k = first_colon(line);
        Some((trim(line.take(k)), trim(line.skip(k + 1))))
    } else {
        None
    }
}

/// A line that may stand in a header block: the empty line that ends it, or a header field.
pub open spec fn is_header_block_line(line: Seq<char>) -> bool {
    line.len() == 0 || has_colon(line)
}

pub proof fn lemma_first_colon(s: Seq<char>, k: int)
    requires
        is_first_colon(s, k),
    ensures
        has_colon(s),
        first_colon(s) == k,
{
    assert(s[k] == ':');
    let c = first_colon(s);
    assert(is_first_colon(s, c));
    if c < k {
        assert(s[c] == ':');
    } else if c > k {
        assert(s[k] == ':');
    }
}

/// Where `s` holds a `:`, `first_colon(s)` is the position of the first one.
pub proof fn lemma_has_first_colon(s: Seq<char>)
    requires
        has_colon(s),
    ensures
        is_first_colon(s, first_colon(s)),
    decreases s.len(),
{
    if s[0] == ':' {
        assert(is_first_colon(s, 0));
    } else {
        let j = choose|j: int| 0 <= j < s.len() && s[j] == ':';
        assert(s.drop_first()[j - 1] == ':');
        lemma_has_first_colon(s.drop_first());
        let k = first_colon(s.drop_first());
        assert forall|i: int| 0 <= i < k + 1 implies s[i] != ':' by {
            if i > 0 {
                assert(s[i] == s.drop_first()[i - 1]);
            }
        }
        assert(is_first_colon(s, k + 1));
    }
}

/// Reads `header_line` as a header field; `None` where it holds no `:`.
pub fn parse(header_line: String) -> (r: Option<http_header_entry>)
    ensures
        match r {
            Some(e) => parse_header_line(header_line@) == Some(e@),
            None => parse_header_line(header_line@) is None,
        },
{
    let v = chars_of(header_line.as_str());
    let len = v.len();
    let mut k: usize = 0;
    while k < len && v[k] != ':'
        invariant
            k <= len == v.len(),
            v@ == header_line@,
            forall|j: int| 0 <= j < k ==> v@[j] != ':',
        decreases len - k,
    {
        k = k + 1;
    }
    if k == len {
        return None;
    }
    proof {
        lemma_first_colon(v@, k as int);
    }
    let (a, b) = trim_bounds(&v, 0, k);
    let (c, d) = trim_bounds(&v, k + 1, len);
    assert(v@.subrange(0, k as int) =~= v@.take(k as int));
    assert(v@.subrange(k + 1, len as int) =~= v@.skip(k + 1));
    let name = substring(header_line.as_str(), a, b);
    let value = substring(header_line.as_str(), c, d);
    Some(http_header_entry { name, value })
}

/// The line `name: value` that a header field is written as.
pub open spec fn header_line_text(name: Seq<char>, value: Seq<char>) -> Seq<char> {
    name + ": "@ + value
}

/// The lines before the first empty line.
pub open spec fn header_block(lines: Seq<Seq<char>>) -> Seq<Seq<char>>
    decreases lines.len(),
{
    if lines.len() == 0 || lines[0].len() == 0 {
        Seq::empty()
    } else {
        seq![lines[0]] + header_block(lines.drop_first())
    }
}

/// Every line of `lines` may stand in a header block.
pub open spec fn valid_header_lines(lines: Seq<Seq<char>>) -> bool {
    forall|i: int| 0 <= i < lines.len() ==> #[trigger] is_header_block_line(lines[i])
}

/// Law: a header field that was read from a line is read back unchanged from
/// the line `name: value` that it is written as.
pub proof fn law_header_line_round_trip(line: Seq<char>)
    requires
        parse_header_line(line) is Some,
    ensures
        match parse_header_line(line) {
            Some(field) => parse_header_line(header_line_text(field.0, field.1)) == Some(field),
            None => true,
        },
{
    lemma_has_first_colon(line);
    let k = first_colon(line);
    let n = trim(line.take(k));
    let v = trim(line.skip(k + 1));
    lemma_trim_facts(line.take(k));
    lemma_trim_facts(line.skip(k + 1));
    assert(!line.take(k).contains(':'));
    assert(!n.contains(':'));
    reveal_strlit(": ");
    let l2 = header_line_text(n, v);
    assert(l2[n.len() as int] == ':');
    assert forall|j: int| 0 <= j < n.len() implies l2[j] != ':' by {
        assert(l2[j] == n[j]);
    }
    lemma_first_colon(l2, n.len() as int);
    assert(l2.take(n.len() as int) =~= n);
    let rest = l2.skip(n.len() as int + 1);
    assert(rest =~= seq![' '] + v);
    assert(is_ws(rest[0]));
    assert(rest.drop_first() =~= v);
    assert(trim_start(rest) == trim_start(v));
    assert(trim(rest) == trim_end(trim_start(v)));
    assert(trim(v) == v);
}

} // verus!
