use vstd::prelude::*;
use vstd::std_specs::iter::IteratorSpec;
use vstd::string::StringExecFns;
use vstd::string::StrSliceExecFns;

verus! {

broadcast use vstd::string::group_string_axioms;

// ---------------------------------------------------------------------------
// Characters
// ---------------------------------------------------------------------------

/// Unicode White_Space, the set that `char::is_whitespace` (and with it
/// `str::split_whitespace` and `str::trim`) uses.
pub open spec fn is_ws(c: char) -> bool {
    let n = c as u32;
    ||| n == 0x20
    ||| (0x09 <= n && n <= 0x0D)
    ||| n == 0x85
    ||| n == 0xA0
    ||| n == 0x1680
    ||| (0x2000 <= n && n <= 0x200A)
    ||| n == 0x2028
    ||| n == 0x2029
    ||| n == 0x202F
    ||| n == 0x205F
    ||| n == 0x3000
}

pub fn is_whitespace(c: char) -> (b: bool)
    ensures
        b == is_ws(c),
{
    let n = c as u32;
    n == 0x20 || (0x09 <= n && n <= 0x0D) || n == 0x85 || n == 0xA0 || n == 0x1680 || (0x2000
        <= n && n <= 0x200A) || n == 0x2028 || n == 0x2029 || n == 0x202F || n == 0x205F || n
        == 0x3000
}

/// The characters of `s`, in order.
pub fn chars_of(s: &str) -> (v: Vec<char>)
    ensures
        v@ == s@,
{
    let mut v: Vec<char> = Vec::new();
    for c in iter: s.chars()
        invariant
            v@ == iter.seq().take(iter.index()),
            iter.seq() == s@,
    {
        v.push(c);
        assert(v@ =~= iter.seq().take(iter.index() + 1));
    }
    assert(v@ =~= s@);
    v
}

/// A new string holding the characters `from..to` of `s`.
pub fn substring(s: &str, from: usize, to: usize) -> (r: String)
    requires
        from <= to <= s@.len(),
    ensures
        r@ == s@.subrange(from as int, to as int),
{
    s.substring_char(from, to).to_owned()
}

// ---------------------------------------------------------------------------
// Trimming
// ---------------------------------------------------------------------------

/// `s` without its leading whitespace.
pub open spec fn trim_start(s: Seq<char>) -> Seq<char>
    decreases s.len(),
{
    if s.len() > 0 && is_ws(s[0]) {
        trim_start(s.drop_first())
    } else {
        s
    }
}

/// `s` without its trailing whitespace.
pub open spec fn trim_end(s: Seq<char>) -> Seq<char>
    decreases s.len(),
{
    if s.len() > 0 && is_ws(s.last()) {
        trim_end(s.drop_last())
    } else {
        s
    }
}

/// `s` without leading and trailing whitespace, as `str::trim` gives it.
pub open spec fn trim(s: Seq<char>) -> Seq<char> {
    trim_end(trim_start(s))
}

pub proof fn lemma_trim_start_len(s: Seq<char>)
    ensures
        trim_start(s).len() <= s.len(),
        trim_start(s).len() > 0 ==> !is_ws(trim_start(s)[0]),
    decreases s.len(),
{
    if s.len() > 0 && is_ws(s[0]) {
        lemma_trim_start_len(s.drop_first());
    }
}

/// The bounds `(a, b)` of `trim(v[from..to])` inside `v`.
pub fn trim_bounds(v: &Vec<char>, from: usize, to: usize) -> (r: (usize, usize))
    requires
        from <= to <= v.len(),
    ensures
        from <= r.0 <= r.1 <= to,
        v@.subrange(r.0 as int, r.1 as int) == trim(v@.subrange(from as int, to as int)),
{
    let ghost w = v@.subrange(from as int, to as int);
    let mut i: usize = from;
    assert(v@.subrange(from as int, to as int) =~= w);
    while i < to && is_whitespace(v[i])
        invariant
            from <= i <= to <= v.len(),
            trim_start(w) == trim_start(v@.subrange(i as int, to as int)),
        decreases to - i,
    {
        assert(v@.subrange(i as int, to as int).drop_first() =~= v@.subrange(i + 1, to as int));
        i = i + 1;
    }
    assert(trim_start(w) == v@.subrange(i as int, to as int));
    let mut j: usize = to;
    while j > i && is_whitespace(v[j - 1])
        invariant
            from <= i <= j <= to <= v.len(),
            trim(w) == trim_end(v@.subrange(i as int, j as int)),
        decreases j,
    {
        assert(v@.subrange(i as int, j as int).drop_last() =~= v@.subrange(i as int, j - 1));
        j = j - 1;
    }
    (i, j)
}

pub proof fn lemma_trim_start_is_suffix(s: Seq<char>) -> (a: int)
    ensures
        0 <= a <= s.len(),
        trim_start(s) == s.skip(a),
    decreases s.len(),
{
    if s.len() > 0 && is_ws(s[0]) {
        let a = lemma_trim_start_is_suffix(s.drop_first());
        assert(s.drop_first().skip(a) =~= s.skip(a + 1));
        a + 1
    } else {
        assert(s.skip(0) =~= s);
        0
    }
}

pub proof fn lemma_trim_end_is_prefix(s: Seq<char>) -> (b: int)
    ensures
        0 <= b <= s.len(),
        trim_end(s) == s.take(b),
        trim_end(s).len() > 0 ==> !is_ws(trim_end(s).last()),
    decreases s.len(),
{
    if s.len() > 0 && is_ws(s.last()) {
        let b = lemma_trim_end_is_prefix(s.drop_last());
        assert(s.drop_last().take(b) =~= s.take(b));
        b
    } else {
        assert(s.take(s.len() as int) =~= s);
        s.len() as int
    }
}

/// A sequence without surrounding whitespace is its own trim.
pub proof fn lemma_trim_of_trimmed(s: Seq<char>)
    requires
        s.len() > 0 ==> !is_ws(s[0]) && !is_ws(s.last()),
    ensures
        trim(s) == s,
{
}

/// What `trim` gives has no surrounding whitespace, holds only characters of
/// `s`, and is its own trim.
pub proof fn lemma_trim_facts(s: Seq<char>)
    ensures
        trim(s).len() > 0 ==> !is_ws(trim(s)[0]) && !is_ws(trim(s).last()),
        forall|c: char| trim(s).contains(c) ==> s.contains(c),
        trim(trim(s)) == trim(s),
{
    let a = lemma_trim_start_is_suffix(s);
    let t = trim_start(s);
    lemma_trim_start_len(s);
    let b = lemma_trim_end_is_prefix(t);
    let u = trim(s);
    assert(u == t.take(b));
    if u.len() > 0 {
        assert(u[0] == t[0]);
    }
    assert forall|c: char| u.contains(c) implies s.contains(c) by {
        let j = choose|j: int| 0 <= j < u.len() && u[j] == c;
        assert(u[j] == t[j]);
        assert(t[j] == s[j + a]);
    }
    lemma_trim_of_trimmed(u);
}

// ---------------------------------------------------------------------------
// Splitting on whitespace
// ---------------------------------------------------------------------------

/// The leading run of non-whitespace characters of `s`.
pub open spec fn word(s: Seq<char>) -> Seq<char>
    decreases s.len(),
{
    if s.len() > 0 && !is_ws(s[0]) {
        seq![s[0]] + word(s.drop_first())
    } else {
        Seq::empty()
    }
}

/// What follows `word(s)` in `s`.
pub open spec fn after_word(s: Seq<char>) -> Seq<char>
    decreases s.len(),
{
    if s.len() > 0 && !is_ws(s[0]) {
        after_word(s.drop_first())
    } else {
        s
    }
}

pub proof fn lemma_after_word_len(s: Seq<char>)
    ensures
        after_word(s).len() <= s.len(),
        s.len() > 0 && !is_ws(s[0]) ==> after_word(s).len() < s.len(),
    decreases s.len(),
{
    if s.len() > 0 && !is_ws(s[0]) {
        lemma_after_word_len(s.drop_first());
    }
}

/// The whitespace-separated words of `s`, as `str::split_whitespace` yields them.
pub open spec fn split_ws(s: Seq<char>) -> Seq<Seq<char>>
    decreases s.len(),
{
    let t = trim_start(s);
    if t.len() == 0 {
        Seq::empty()
    } else {
        proof {
            lemma_trim_start_len(s);
            lemma_after_word_len(t);
        }
        seq![word(t)] + split_ws(after_word(t))
    }
}

/// `w` is a word: not empty, and without whitespace.
pub open spec fn is_word(w: Seq<char>) -> bool {
    w.len() > 0 && forall|j: int| 0 <= j < w.len() ==> !is_ws(#[trigger] w[j])
}

pub proof fn lemma_word_concat(w: Seq<char>, t: Seq<char>)
    requires
        forall|j: int| 0 <= j < w.len() ==> !is_ws(#[trigger] w[j]),
        t.len() == 0 || is_ws(t[0]),
    ensures
        word(w + t) == w,
        after_word(w + t) == t,
    decreases w.len(),
{
    if w.len() == 0 {
        assert(w + t =~= t);
    } else {
        let w1 = w.drop_first();
        assert forall|j: int| 0 <= j < w1.len() implies !is_ws(#[trigger] w1[j]) by {
            assert(w1[j] == w[j + 1]);
        }
        lemma_word_concat(w1, t);
        assert(!is_ws(w[0]));
        assert((w + t).drop_first() =~= w1 + t);
        assert(seq![w[0]] + w1 =~= w);
    }
}

pub proof fn lemma_word_facts(t: Seq<char>)
    ensures
        forall|j: int| 0 <= j < word(t).len() ==> !is_ws(#[trigger] word(t)[j]),
        t.len() > 0 && !is_ws(t[0]) ==> word(t).len() > 0,
    decreases t.len(),
{
    if t.len() > 0 && !is_ws(t[0]) {
        lemma_word_facts(t.drop_first());
        let r = word(t.drop_first());
        assert forall|j: int| 0 <= j < word(t).len() implies !is_ws(#[trigger] word(t)[j]) by {
            if j > 0 {
                assert(word(t)[j] == r[j - 1]);
            }
        }
    }
}

/// Every word that `split_ws` yields is a word.
pub proof fn lemma_split_ws_words(s: Seq<char>)
    ensures
        forall|i: int| 0 <= i < split_ws(s).len() ==> is_word(#[trigger] split_ws(s)[i]),
    decreases s.len(),
{
    let t = trim_start(s);
    lemma_trim_start_len(s);
    if t.len() > 0 {
        lemma_after_word_len(t);
        lemma_split_ws_words(after_word(t));
        lemma_word_facts(t);
        let rest = split_ws(after_word(t));
        assert forall|i: int| 0 <= i < split_ws(s).len() implies is_word(#[trigger] split_ws(s)[i]) by {
            if i > 0 {
                assert(split_ws(s)[i] == rest[i - 1]);
            }
        }
    }
}

/// A word followed by whitespace (or nothing) splits off as the first word.
pub proof fn lemma_split_ws_word_then(w: Seq<char>, t: Seq<char>)
    requires
        is_word(w),
        t.len() == 0 || is_ws(t[0]),
    ensures
        split_ws(w + t) == seq![w] + split_ws(t),
{
    lemma_word_concat(w, t);
    assert((w + t)[0] == w[0]);
    assert(trim_start(w + t) == w + t);
}

/// Leading whitespace does not change the words.
pub proof fn lemma_split_ws_skip_ws(c: char, t: Seq<char>)
    requires
        is_ws(c),
    ensures
        split_ws(seq![c] + t) == split_ws(t),
{
    assert((seq![c] + t).drop_first() =~= t);
    assert(trim_start(seq![c] + t) == trim_start(t));
}

/// A text of whitespace only has no words.
pub proof fn lemma_split_ws_all_ws(t: Seq<char>)
    requires
        forall|j: int| 0 <= j < t.len() ==> is_ws(#[trigger] t[j]),
    ensures
        split_ws(t) == Seq::<Seq<char>>::empty(),
    decreases t.len(),
{
    if t.len() > 0 {
        assert(is_ws(t[0]));
        let t1 = t.drop_first();
        assert forall|j: int| 0 <= j < t1.len() implies is_ws(#[trigger] t1[j]) by {
            assert(t1[j] == t[j + 1]);
        }
        lemma_split_ws_all_ws(t1);
        assert(seq![t[0]] + t1 =~= t);
        lemma_split_ws_skip_ws(t[0], t1);
    } else {
        assert(trim_start(t).len() == 0);
    }
}

/// Finds the next word of `v` at or after `start`: it stands at `r.0..r.1`,
/// or `r.0 == r.1 == v.len()` where none is left.
pub fn next_word(v: &Vec<char>, start: usize) -> (r: (usize, usize))
    requires
        start <= v.len(),
    ensures
        start <= r.0 <= r.1 <= v.len(),
        r.0 == v.len() ==> r.1 == v.len() && split_ws(v@.skip(start as int)) == Seq::<Seq<char>>::empty(),
        r.0 < v.len() ==> r.0 < r.1 && split_ws(v@.skip(start as int)) == seq![
            v@.subrange(r.0 as int, r.1 as int),
        ] + split_ws(v@.skip(r.1 as int)),
{
    let len = v.len();
    let mut i: usize = start;
    while i < len && is_whitespace(v[i])
        invariant
            start <= i <= len == v.len(),
            trim_start(v@.skip(start as int)) == trim_start(v@.skip(i as int)),
        decreases len - i,
    {
        assert(v@.skip(i as int).drop_first() =~= v@.skip(i + 1));
        i = i + 1;
    }
    let ghost t = v@.skip(i as int);
    assert(trim_start(v@.skip(start as int)) == t);
    if i == len {
        assert(t.len() == 0);
        return (len, len);
    }
    let mut j: usize = i;
    while j < len && !is_whitespace(v[j])
        invariant
            i <= j <= len == v.len(),
            word(t) == v@.subrange(i as int, j as int) + word(v@.skip(j as int)),
            after_word(t) == after_word(v@.skip(j as int)),
        decreases len - j,
    {
        assert(v@.skip(j as int).drop_first() =~= v@.skip(j + 1));
        assert(v@.subrange(i as int, j + 1) =~= v@.subrange(i as int, j as int) + seq![v@[j as int]]);
        j = j + 1;
    }
    assert(word(v@.skip(j as int)) =~= Seq::<char>::empty());
    assert(word(t) =~= v@.subrange(i as int, j as int));
    (i, j)
}

// ---------------------------------------------------------------------------
// Case-insensitive comparison
// ---------------------------------------------------------------------------

/// The code of `c` with ASCII upper case letters mapped to lower case.
pub open spec fn ascii_lower(c: char) -> u32 {
    let n = c as u32;
    if 65 <= n && n <= 90 {
        (n + 32) as u32
    } else {
        n
    }
}

/// `a` and `b` are equal up to ASCII case, as `str::eq_ignore_ascii_case` decides.
pub open spec fn eq_ignore_ascii_case(a: Seq<char>, b: Seq<char>) -> bool {
    &&& a.len() == b.len()
    &&& forall|i: int| 0 <= i < a.len() ==> #[trigger] ascii_lower(a[i]) == ascii_lower(b[i])
}

fn lower_code(c: char) -> (n: u32)
    ensures
        n == ascii_lower(c),
{
    let n = c as u32;
    if 65 <= n && n <= 90 {
        n + 32
    } else {
        n
    }
}

pub fn chars_eq_ignore_ascii_case(a: &Vec<char>, b: &str) -> (r: bool)
    ensures
        r == eq_ignore_ascii_case(a@, b@),
{
    let bv = chars_of(b);
    if a.len() != bv.len() {
        return false;
    }
    let mut i: usize = 0;
    while i < a.len()
        invariant
            a.len() == bv.len(),
            bv@ == b@,
            i <= a.len(),
            forall|k: int| 0 <= k < i ==> #[trigger] ascii_lower(a@[k]) == ascii_lower(b@[k]),
        decreases a.len() - i,
    {
        if lower_code(a[i]) != lower_code(bv[i]) {
            return false;
        }
        i = i + 1;
    }
    true
}

// ---------------------------------------------------------------------------
// Decimal integers
// ---------------------------------------------------------------------------

pub open spec fn is_digit(c: char) -> bool {
    48 <= (c as u32) && (c as u32) <= 57
}

pub open spec fn digit_value(c: char) -> int {
    (c as u32) - 48
}

/// The number that the decimal digits `s` spell.
pub open spec fn digits_value(s: Seq<char>) -> int
    decreases s.len(),
{
    if s.len() == 0 {
        0
    } else {
        digits_value(s.drop_last()) * 10 + digit_value(s.last())
    }
}

pub open spec fn all_digits(s: Seq<char>) -> bool {
    forall|i: int| 0 <= i < s.len() ==> #[trigger] is_digit(s[i])
}

/// The integer that `s` spells in the syntax that `str::parse` accepts for a
/// signed integer type: an optional `+` or `-`, then one or more ASCII digits.
pub open spec fn parse_int(s: Seq<char>) -> Option<int> {
    if s.len() > 0 && (s[0] == '+' || s[0] == '-') {
        let d = s.drop_first();
        if d.len() > 0 && all_digits(d) {
            Some(
                if s[0] == '-' {
                    -digits_value(d)
                } else {
                    digits_value(d)
                },
            )
        } else {
            None
        }
    } else if s.len() > 0 && all_digits(s) {
        Some(digits_value(s))
    } else {
        None
    }
}

/// What `s.parse::<i64>()` gives, as an `Option`.
pub open spec fn parse_i64_spec(s: Seq<char>) -> Option<i64> {
    match parse_int(s) {
        Some(v) => if i64::MIN <= v <= i64::MAX {
            Some(v as i64)
        } else {
            None
        },
        None => None,
    }
}

/// What `s.parse::<i32>()` gives, as an `Option`.
pub open spec fn parse_i32_spec(s: Seq<char>) -> Option<i32> {
    match parse_int(s) {
        Some(v) => if i32::MIN <= v <= i32::MAX {
            Some(v as i32)
        } else {
            None
        },
        None => None,
    }
}

pub proof fn lemma_digits_value_prefix(s: Seq<char>, k: int)
    requires
        all_digits(s),
        0 <= k <= s.len(),
    ensures
        0 <= digits_value(s.take(k)) <= digits_value(s),
    decreases s.len() - k,
{
    if k < s.len() {
        lemma_digits_value_prefix(s, k + 1);
        assert(s.take(k + 1).drop_last() =~= s.take(k));
        assert(is_digit(s[k]));
    } else {
        assert(s.take(k) =~= s);
        lemma_digits_value_nonneg(s);
    }
}

pub proof fn lemma_digits_value_nonneg(s: Seq<char>)
    requires
        all_digits(s),
    ensures
        digits_value(s) >= 0,
    decreases s.len(),
{
    if s.len() > 0 {
        assert(is_digit(s[s.len() - 1]));
        lemma_digits_value_nonneg(s.drop_last());
    }
}

/// `s.parse::<i64>()`, on the characters of `s`.
pub fn parse_i64(v: &Vec<char>) -> (r: Option<i64>)
    ensures
        r == parse_i64_spec(v@),
{
    let len = v.len();
    if len == 0 {
        return None;
    }
    let mut start: usize = 0;
    let mut neg = false;
    if v[0] == '+' || v[0] == '-' {
        if len == 1 {
            return None;
        }
        neg = v[0] == '-';
        start = 1;
    }
    let ghost d = v@.skip(start as int);
    assert(start == 1 ==> d =~= v@.drop_first());
    assert(start == 0 ==> d =~= v@);
    let mut acc: u64 = 0;
    let mut i: usize = start;
    while i < len
        invariant
            start <= i <= len == v.len(),
            len > 0,
            start <= 1,
            (start == 1) == (v@[0] == '+' || v@[0] == '-'),
            start == 1 ==> len > 1 && d =~= v@.drop_first(),
            start == 0 ==> d =~= v@,
            neg == (start == 1 && v@[0] == '-'),
            d == v@.skip(start as int),
            forall|k: int| 0 <= k < i - start ==> #[trigger] is_digit(d[k]),
            acc == digits_value(d.take(i - start)),
            acc <= 9223372036854775808u64,
        decreases len - i,
    {
        let c = v[i];
        let n = c as u32;
        if n < 48 || n > 57 {
            assert(!is_digit(d[i - start]));
            return None;
        }
        let dg: u64 = (n - 48) as u64;
        assert(d.take(i - start + 1).drop_last() =~= d.take(i - start));
        assert(d.take(i - start + 1).last() == c);
        if acc > 922337203685477580u64 || (acc == 922337203685477580u64 && dg > 8) {
            proof {
                if all_digits(d) {
                    lemma_digits_value_prefix(d, i - start + 1);
                    assert(digits_value(d) > 9223372036854775808);
                }
            }
            return None;
        }
        acc = acc * 10 + dg;
        i = i + 1;
    }
    assert(d.take(len - start) =~= d);
    assert(all_digits(d));
    if neg {
        if acc == 9223372036854775808u64 {
            Some(i64::MIN)
        } else {
            Some(-(acc as i64))
        }
    } else {
        if acc > 9223372036854775807u64 {
            None
        } else {
            Some(acc as i64)
        }
    }
}

/// `s.parse::<i32>()`, on the characters of `s`.
pub fn parse_i32(v: &Vec<char>) -> (r: Option<i32>)
    ensures
        r == parse_i32_spec(v@),
{
    match parse_i64(v) {
        Some(x) => if -2147483648 <= x && x <= 2147483647 {
            Some(x as i32)
        } else {
            None
        },
        None => None,
    }
}

/// The character of the decimal digit `d`.
pub open spec fn digit_char(d: nat) -> char {
    (d + 48) as char
}

/// The decimal digits of `n`, without leading zeros, as `to_string` writes them.
pub open spec fn decimal(n: nat) -> Seq<char>
    decreases n,
{
    if n < 10 {
        seq![digit_char(n)]
    } else {
        decimal(n / 10).push(digit_char(n % 10))
    }
}

/// `v.to_string()` for an integer `v`.
pub open spec fn decimal_int(v: int) -> Seq<char> {
    if v < 0 {
        seq!['-'] + decimal((-v) as nat)
    } else {
        decimal(v as nat)
    }
}

fn digit_str(d: u64) -> (s: &'static str)
    requires
        d < 10,
    ensures
        s@ == seq![digit_char(d as nat)],
{
    proof {
        reveal_strlit("0");
        reveal_strlit("1");
        reveal_strlit("2");
        reveal_strlit("3");
        reveal_strlit("4");
        reveal_strlit("5");
        reveal_strlit("6");
        reveal_strlit("7");
        reveal_strlit("8");
        reveal_strlit("9");
    }
    match d {
        0 => "0",
        1 => "1",
        2 => "2",
        3 => "3",
        4 => "4",
        5 => "5",
        6 => "6",
        7 => "7",
        8 => "8",
        _ => "9",
    }
}

/// Appends the decimal digits of `n`.
pub fn push_decimal(out: &mut String, n: u64)
    ensures
        final(out)@ == old(out)@ + decimal(n as nat),
    decreases n,
{
    if n >= 10 {
        push_decimal(out, n / 10);
    }
    out.append(digit_str(n % 10));
    assert(out@ =~= old(out)@ + decimal(n as nat));
}

/// Appends `v.to_string()`.
pub fn push_decimal_i64(out: &mut String, v: i64)
    ensures
        final(out)@ == old(out)@ + decimal_int(v as int),
{
    if v < 0 {
        proof {
            reveal_strlit("-");
        }
        out.append("-");
        let m: u64 = (0i128 - v as i128) as u64;
        push_decimal(out, m);
        assert(final(out)@ =~= old(out)@ + decimal_int(v as int));
    } else {
        push_decimal(out, v as u64);
    }
}

/// `v.to_string()`.
pub fn decimal_string(v: i64) -> (s: String)
    ensures
        s@ == decimal_int(v as int),
{
    let mut s = String::new();
    push_decimal_i64(&mut s, v);
    assert(s@ =~= decimal_int(v as int));
    s
}

// ---------------------------------------------------------------------------
// Prefixes and membership
// ---------------------------------------------------------------------------

/// `s` begins with `p`, as `str::starts_with` decides.
pub open spec fn starts_with(s: Seq<char>, p: Seq<char>) -> bool {
    p.len() <= s.len() && s.take(p.len() as int) == p
}

pub fn str_starts_with(s: &str, p: &str) -> (r: bool)
    ensures
        r == starts_with(s@, p@),
{
    let sv = chars_of(s);
    let pv = chars_of(p);
    if pv.len() > sv.len() {
        return false;
    }
    let mut i: usize = 0;
    while i < pv.len()
        invariant
            pv.len() <= sv.len(),
            sv@ == s@,
            pv@ == p@,
            i <= pv.len(),
            forall|k: int| 0 <= k < i ==> sv@[k] == pv@[k],
        decreases pv.len() - i,
    {
        if sv[i] != pv[i] {
            assert(s@.take(p@.len() as int)[i as int] != p@[i as int]);
            return false;
        }
        i = i + 1;
    }
    assert(s@.take(p@.len() as int) =~= p@);
    true
}

pub fn str_contains_char(s: &str, c: char) -> (r: bool)
    ensures
        r == s@.contains(c),
{
    let sv = chars_of(s);
    let mut i: usize = 0;
    while i < sv.len()
        invariant
            sv@ == s@,
            i <= sv.len(),
            forall|k: int| 0 <= k < i ==> sv@[k] != c,
        decreases sv.len() - i,
    {
        if sv[i] == c {
            assert(s@[i as int] == c);
            return true;
        }
        i = i + 1;
    }
    false
}

// ---------------------------------------------------------------------------
// Reading back what was written
// ---------------------------------------------------------------------------

pub proof fn lemma_decimal_digits(n: nat)
    ensures
        decimal(n).len() >= 1,
        all_digits(decimal(n)),
        digits_value(decimal(n)) == n,
    decreases n,
{
    let c = digit_char(n % 10);
    assert((((n % 10) + 48) as char) as u32 == (n % 10) + 48);
    assert(is_digit(c));
    assert(digit_value(c) == n % 10);
    if n >= 10 {
        lemma_decimal_digits(n / 10);
        let d = decimal(n / 10);
        assert(decimal(n) == d.push(c));
        assert(decimal(n).drop_last() =~= d);
        assert(decimal(n).last() == c);
        assert((n / 10) * 10 + n % 10 == n) by (nonlinear_arith);
        assert(digits_value(decimal(n)) == digits_value(d) * 10 + digit_value(c));
        assert(digits_value(decimal(n)) == n);
        assert forall|i: int| 0 <= i < decimal(n).len() implies #[trigger] is_digit(
            decimal(n)[i],
        ) by {
            if i < d.len() {
                assert(decimal(n)[i] == d[i]);
            }
        }
    } else {
        assert(decimal(n).drop_last() =~= Seq::<char>::empty());
        assert(decimal(n).last() == c);
        assert(n % 10 == n);
        assert(digits_value(decimal(n).drop_last()) == 0);
        assert(digits_value(decimal(n)) == n);
    }
}

/// Law: reading back the decimal text of an `i64` gives the same number, so
/// a length written into a header field is read back unchanged.
pub proof fn law_parse_i64_decimal(v: i64)
    ensures
        parse_i64_spec(decimal_int(v as int)) == Some(v),
{
    if v < 0 {
        let m = (-v) as nat;
        lemma_decimal_digits(m);
        let s = decimal_int(v as int);
        assert(s[0] == '-');
        assert(s.drop_first() =~= decimal(m));
    } else {
        lemma_decimal_digits(v as nat);
        let s = decimal(v as nat);
        assert(is_digit(s[0]));
    }
}

/// The decimal text of an integer is a word: digits, after a `-` where the
/// integer is negative.
pub proof fn lemma_decimal_int_word(v: int)
    ensures
        is_word(decimal_int(v)),
{
    let d = decimal_int(v);
    if v < 0 {
        let m = (-v) as nat;
        lemma_decimal_digits(m);
        assert forall|j: int| 0 <= j < d.len() implies !is_ws(#[trigger] d[j]) by {
            if j > 0 {
                assert(d[j] == decimal(m)[j - 1]);
                assert(is_digit(decimal(m)[j - 1]));
            }
        }
    } else {
        lemma_decimal_digits(v as nat);
        assert forall|j: int| 0 <= j < d.len() implies !is_ws(#[trigger] d[j]) by {
            assert(is_digit(d[j]));
        }
    }
}

/// The decimal text of an `i32` is a word, and reads back as the same number.
pub proof fn lemma_decimal_i32_word(c: i32)
    ensures
        is_word(decimal_int(c as int)),
        parse_i32_spec(decimal_int(c as int)) == Some(c),
{
    law_parse_i64_decimal(c as i64);
    lemma_decimal_int_word(c as int);
}

} // verus!
