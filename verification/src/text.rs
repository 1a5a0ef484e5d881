//! Verified text utilities for header walking: splitting on separators,
//! trimming, unquoting, stripping the port and brackets from a peer
//! specification, case folding of ASCII letters and decimal port parsing.
//!
//! Every executable function here is specified against a spec function over
//! the character sequence view of its input.

use vstd::prelude::*;

verus! {

/// Whitespace as header values can carry it: the space character and the
/// ASCII control whitespace (tab through carriage return).
pub open spec fn is_space(c: char) -> bool {
    c == ' ' || ('\u{9}' <= c && c <= '\u{d}')
}

/// The lower-case form of an ASCII letter; any other character is unchanged.
pub open spec fn lower_char(c: char) -> char {
    if 'A' <= c && c <= 'Z' {
        ((c as u32) + 32) as char
    } else {
        c
    }
}

/// ASCII-lower-cased text.
pub open spec fn spec_lower(s: Seq<char>) -> Seq<char> {
    s.map_values(|c: char| lower_char(c))
}

/// A decimal digit.
pub open spec fn is_digit(c: char) -> bool {
    '0' <= c && c <= '9'
}

/// The value of a decimal digit.
pub open spec fn digit_val(c: char) -> int {
    c as u32 - 48
}

/// The index of the first occurrence of `c` in `s`, or the length of `s` if
/// there is none.
pub open spec fn spec_find(s: Seq<char>, c: char) -> int
    decreases s.len(),
{
    if s.len() == 0 {
        0
    } else if s[0] == c {
        0
    } else {
        1 + spec_find(s.drop_first(), c)
    }
}

pub proof fn lemma_find_props(s: Seq<char>, c: char)
    ensures
        0 <= spec_find(s, c) <= s.len(),
        spec_find(s, c) < s.len() ==> s[spec_find(s, c)] == c,
        forall|j: int| 0 <= j < spec_find(s, c) ==> s[j] != c,
    decreases s.len(),
{
    if s.len() == 0 {
    } else if s[0] == c {
    } else {
        lemma_find_props(s.drop_first(), c);
        assert forall|j: int| 0 <= j < spec_find(s, c) implies s[j] != c by {
            if j > 0 {
                assert(s.drop_first()[j - 1] == s[j]);
            }
        }
    }
}

/// Index of the first occurrence of `c`, or the length when `c` is absent.
pub(crate) fn find_char(s: &str, c: char) -> (r: usize)
    ensures
        r == spec_find(s@, c),
{
    proof {
        lemma_find_props(s@, c);
    }
    let n: usize = s.unicode_len();
    let mut i: usize = 0;
    while i < n
        invariant
            0 <= i <= n,
            n == s@.len(),
            forall|j: int| 0 <= j < i ==> s@[j] != c,
            0 <= spec_find(s@, c) <= s@.len(),
            spec_find(s@, c) < s@.len() ==> s@[spec_find(s@, c)] == c,
            forall|j: int| 0 <= j < spec_find(s@, c) ==> s@[j] != c,
        decreases n - i,
    {
        if s.get_char(i) == c {
            return i;
        }
        i = i + 1;
    }
    i
}

/// Splitting `s` on `sep`: the pieces between occurrences of the separator,
/// in order. There is always at least one piece; an empty text yields one
/// empty piece, as `str::split` does.
pub open spec fn spec_split(s: Seq<char>, sep: char) -> Seq<Seq<char>>
    decreases s.len(),
{
    if s.len() == 0 {
        seq![Seq::<char>::empty()]
    } else if s[0] == sep {
        seq![Seq::<char>::empty()] + spec_split(s.drop_first(), sep)
    } else {
        let rest = spec_split(s.drop_first(), sep);
        seq![seq![s[0]] + rest[0]] + rest.drop_first()
    }
}

pub proof fn lemma_split_len(s: Seq<char>, sep: char)
    ensures
        spec_split(s, sep).len() >= 1,
    decreases s.len(),
{
    if s.len() == 0 {
    } else {
        lemma_split_len(s.drop_first(), sep);
    }
}

/// Splitting a text free of the separator yields that text as the one piece.
pub proof fn lemma_split_no_sep(s: Seq<char>, sep: char)
    requires
        forall|j: int| 0 <= j < s.len() ==> s[j] != sep,
    ensures
        spec_split(s, sep) == seq![s],
    decreases s.len(),
{
    if s.len() == 0 {
        assert(spec_split(s, sep) =~~= seq![s]);
    } else {
        assert(forall|j: int| 0 <= j < s.drop_first().len() ==> s.drop_first()[j] != sep);
        lemma_split_no_sep(s.drop_first(), sep);
        let rest = spec_split(s.drop_first(), sep);
        assert(rest[0] == s.drop_first());
        assert(seq![s[0]] + s.drop_first() =~= s);
        assert(spec_split(s, sep) =~~= seq![s]);
    }
}

/// Splitting at the first separator: the piece before it, then the splitting
/// of what follows it.
pub proof fn lemma_split_at_first(s: Seq<char>, sep: char, i: int)
    requires
        0 <= i < s.len(),
        s[i] == sep,
        forall|j: int| 0 <= j < i ==> s[j] != sep,
    ensures
        spec_split(s, sep) == seq![s.take(i)] + spec_split(s.skip(i + 1), sep),
    decreases i,
{
    if i == 0 {
        assert(s.take(0) =~= Seq::<char>::empty());
        assert(s.drop_first() =~= s.skip(1));
        assert(spec_split(s, sep) =~~= seq![s.take(0)] + spec_split(s.skip(1), sep));
    } else {
        let d = s.drop_first();
        assert(d[i - 1] == sep);
        assert(forall|j: int| 0 <= j < i - 1 ==> d[j] != sep);
        lemma_split_at_first(d, sep, i - 1);
        lemma_split_len(d.skip(i), sep);
        let rest = spec_split(d, sep);
        assert(rest == seq![d.take(i - 1)] + spec_split(d.skip(i), sep));
        assert(rest[0] == d.take(i - 1));
        assert(seq![s[0]] + d.take(i - 1) =~= s.take(i));
        assert(rest.drop_first() =~= spec_split(d.skip(i), sep));
        assert(d.skip(i) =~= s.skip(i + 1));
        assert(spec_split(s, sep) =~~= seq![s.take(i)] + spec_split(s.skip(i + 1), sep));
    }
}

/// The pieces of `s` between occurrences of `sep`, as owned strings.
pub(crate) fn split_str(s: &str, sep: char) -> (r: Vec<String>)
    ensures
        r.deep_view() == spec_split(s@, sep),
{
    let n: usize = s.unicode_len();
    let mut r: Vec<String> = Vec::new();
    let mut start: usize = 0;
    let mut i: usize = 0;
    proof {
        assert(s@.skip(0) =~= s@);
        assert(r.deep_view() =~= Seq::<Seq<char>>::empty());
        assert(Seq::<Seq<char>>::empty() + spec_split(s@, sep) =~= spec_split(s@, sep));
    }
    while i < n
        invariant
            0 <= start <= i <= n,
            n == s@.len(),
            forall|j: int| start <= j < i ==> s@[j] != sep,
            spec_split(s@, sep) == r.deep_view() + spec_split(s@.skip(start as int), sep),
        decreases n - i,
    {
        if s.get_char(i) == sep {
            let piece = s.substring_char(start, i);
            let ghost old_dv = r.deep_view();
            r.push(piece.to_owned());
            proof {
                let tail = s@.skip(start as int);
                assert(tail[i - start] == sep);
                assert(forall|j: int| 0 <= j < i - start ==> tail[j] != sep);
                lemma_split_at_first(tail, sep, i - start);
                assert(tail.take(i - start) =~= s@.subrange(start as int, i as int));
                assert(tail.skip(i - start + 1) =~= s@.skip(i + 1));
                assert(r.deep_view() =~= old_dv + seq![piece@]);
                assert((old_dv + seq![piece@]) + spec_split(s@.skip(i + 1), sep) =~= old_dv + (
                seq![piece@] + spec_split(s@.skip(i + 1), sep)));
            }
            start = i + 1;
        }
        i = i + 1;
    }
    let piece = s.substring_char(start, n);
    let ghost old_dv = r.deep_view();
    r.push(piece.to_owned());
    proof {
        let tail = s@.skip(start as int);
        assert(forall|j: int| 0 <= j < tail.len() ==> tail[j] != sep);
        lemma_split_no_sep(tail, sep);
        assert(tail =~= s@.subrange(start as int, n as int));
        assert(r.deep_view() =~= old_dv + seq![piece@]);
        assert(r.deep_view() =~= spec_split(s@, sep));
    }
    r
}

/// The pieces of all the texts, split on `sep` and laid end to end in order.
pub open spec fn spec_split_all(vals: Seq<Seq<char>>, sep: char) -> Seq<Seq<char>>
    decreases vals.len(),
{
    if vals.len() == 0 {
        Seq::<Seq<char>>::empty()
    } else {
        spec_split_all(vals.drop_last(), sep) + spec_split(vals.last(), sep)
    }
}

/// Splits every text on `sep` and lays the pieces end to end, as the
/// flattening of `str::split` over a header's instances does.
pub(crate) fn split_all(vals: &Vec<String>, sep: char) -> (r: Vec<String>)
    ensures
        r.deep_view() == spec_split_all(vals.deep_view(), sep),
{
    let mut r: Vec<String> = Vec::new();
    let mut i: usize = 0;
    proof {
        assert(vals.deep_view().subrange(0, 0) =~= Seq::<Seq<char>>::empty());
    }
    while i < vals.len()
        invariant
            0 <= i <= vals.len(),
            r.deep_view() == spec_split_all(vals.deep_view().subrange(0, i as int), sep),
        decreases vals.len() - i,
    {
        let ghost old_dv = r.deep_view();
        let mut pieces = split_str(vals[i].as_str(), sep);
        let ghost pieces_dv = pieces.deep_view();
        r.append(&mut pieces);
        proof {
            let dv = vals.deep_view();
            assert(dv.subrange(0, i + 1).drop_last() =~= dv.subrange(0, i as int));
            assert(dv.subrange(0, i + 1).last() == vals[i as int].deep_view());
            assert(r.deep_view() =~= old_dv + pieces_dv);
        }
        i = i + 1;
    }
    proof {
        assert(vals.deep_view().subrange(0, vals.deep_view().len() as int) =~= vals.deep_view());
    }
    r
}

/// What remains of `s` after dropping leading characters satisfying `pred`.
pub open spec fn spec_drop_start(s: Seq<char>, pred: spec_fn(char) -> bool) -> Seq<char>
    decreases s.len(),
{
    if s.len() > 0 && pred(s[0]) {
        spec_drop_start(s.drop_first(), pred)
    } else {
        s
    }
}

/// What remains of `s` after dropping trailing characters satisfying `pred`.
pub open spec fn spec_drop_end(s: Seq<char>, pred: spec_fn(char) -> bool) -> Seq<char>
    decreases s.len(),
{
    if s.len() > 0 && pred(s.last()) {
        spec_drop_end(s.drop_last(), pred)
    } else {
        s
    }
}

pub proof fn lemma_drop_start_skip(s: Seq<char>, pred: spec_fn(char) -> bool, a: int)
    requires
        0 <= a <= s.len(),
        forall|j: int| 0 <= j < a ==> pred(s[j]),
        a < s.len() ==> !pred(s[a]),
    ensures
        spec_drop_start(s, pred) == s.skip(a),
    decreases a,
{
    if a == 0 {
        assert(s.skip(0) =~= s);
    } else {
        let d = s.drop_first();
        assert(forall|j: int| 0 <= j < a - 1 ==> pred(d[j]));
        lemma_drop_start_skip(d, pred, a - 1);
        assert(d.skip(a - 1) =~= s.skip(a));
    }
}

pub proof fn lemma_drop_end_take(s: Seq<char>, pred: spec_fn(char) -> bool, b: int)
    requires
        0 <= b <= s.len(),
        forall|j: int| b <= j < s.len() ==> pred(s[j]),
        b > 0 ==> !pred(s[b - 1]),
    ensures
        spec_drop_end(s, pred) == s.take(b),
    decreases s.len() - b,
{
    if b == s.len() {
        assert(s.take(b) =~= s);
    } else {
        let d = s.drop_last();
        assert(forall|j: int| b <= j < d.len() ==> pred(d[j]));
        lemma_drop_end_take(d, pred, b);
        assert(d.take(b) =~= s.take(b));
    }
}

/// `s` with leading and trailing whitespace dropped.
pub open spec fn spec_trim(s: Seq<char>) -> Seq<char> {
    spec_drop_end(spec_drop_start(s, |c: char| is_space(c)), |c: char| is_space(c))
}

/// Drops leading and trailing whitespace.
pub(crate) fn trim_str(s: &str) -> (r: &str)
    ensures
        r@ == spec_trim(s@),
{
    let n: usize = s.unicode_len();
    let mut a: usize = 0;
    while a < n && is_space_char(s.get_char(a))
        invariant
            0 <= a <= n,
            n == s@.len(),
            forall|j: int| 0 <= j < a ==> is_space(s@[j]),
        decreases n - a,
    {
        a = a + 1;
    }
    let mut b: usize = n;
    while b > a && is_space_char(s.get_char(b - 1))
        invariant
            a <= b <= n,
            n == s@.len(),
            forall|j: int| b <= j < n ==> is_space(s@[j]),
        decreases b,
    {
        b = b - 1;
    }
    let r = s.substring_char(a, b);
    proof {
        let pred = |c: char| is_space(c);
        lemma_drop_start_skip(s@, pred, a as int);
        let t = s@.skip(a as int);
        assert(forall|j: int| b - a <= j < t.len() ==> pred(t[j]));
        assert(b > a ==> !pred(t[b - a - 1]));
        lemma_drop_end_take(t, pred, b - a);
        assert(t.take(b - a) =~= s@.subrange(a as int, b as int));
    }
    r
}

/// True when the character is whitespace.
fn is_space_char(c: char) -> (r: bool)
    ensures
        r == is_space(c),
{
    c == ' ' || ('\u{9}' <= c && c <= '\u{d}')
}

/// The value of a parameter after trimming whitespace and one surrounding
/// layer of double quotes: a leading quote is dropped if present, then a
/// trailing one.
pub open spec fn spec_unquote(s: Seq<char>) -> Seq<char> {
    let t = spec_trim(s);
    let u = if t.len() > 0 && t[0] == '"' {
        t.drop_first()
    } else {
        t
    };
    if u.len() > 0 && u.last() == '"' {
        u.drop_last()
    } else {
        u
    }
}

/// Trim whitespace, then one surrounding layer of double quotes.
pub fn unquote(val: &str) -> (r: &str)
    ensures
        r@ == spec_unquote(val@),
{
    let t = trim_str(val);
    let n: usize = t.unicode_len();
    let a: usize = if n > 0 && t.get_char(0) == '"' {
        1
    } else {
        0
    };
    let b: usize = if n > a && t.get_char(n - 1) == '"' {
        n - 1
    } else {
        n
    };
    let r = t.substring_char(a, b);
    proof {
        let tv = spec_trim(val@);
        let u = if tv.len() > 0 && tv[0] == '"' {
            tv.drop_first()
        } else {
            tv
        };
        assert(u =~= tv.subrange(a as int, tv.len() as int));
        let w = if u.len() > 0 && u.last() == '"' {
            u.drop_last()
        } else {
            u
        };
        assert(w =~= tv.subrange(a as int, b as int));
    }
    r
}

/// The index of the first occurrence of the two-character bracket-port marker
/// `]:` in `s`, or the length of `s` if there is none.
pub open spec fn spec_find_bracket_colon(s: Seq<char>) -> int
    decreases s.len(),
{
    if s.len() < 2 {
        s.len() as int
    } else if s[0] == ']' && s[1] == ':' {
        0
    } else {
        1 + spec_find_bracket_colon(s.drop_first())
    }
}

pub proof fn lemma_find_bracket_colon_props(s: Seq<char>)
    ensures
        0 <= spec_find_bracket_colon(s) <= s.len(),
        spec_find_bracket_colon(s) < s.len() ==> spec_find_bracket_colon(s) + 1 < s.len()
            && s[spec_find_bracket_colon(s)] == ']' && s[spec_find_bracket_colon(s) + 1] == ':',
        forall|j: int|
            0 <= j < spec_find_bracket_colon(s) && j + 1 < s.len() ==> !(#[trigger] s[j] == ']'
                && s[j + 1] == ':'),
    decreases s.len(),
{
    if s.len() < 2 {
    } else if s[0] == ']' && s[1] == ':' {
    } else {
        lemma_find_bracket_colon_props(s.drop_first());
        assert forall|j: int|
            0 <= j < spec_find_bracket_colon(s) && j + 1 < s.len() implies !(#[trigger] s[j] == ']'
            && s[j + 1] == ':') by {
            if j > 0 {
                assert(s.drop_first()[j - 1] == s[j]);
                assert(s.drop_first()[j] == s[j + 1]);
            }
        }
    }
}

/// The bare address inside a peer specification: for a bracketed IPv6 form,
/// what stands before the first `]:`, stripped of leading `[` and trailing
/// `]`; otherwise what stands before the first `:`.
pub open spec fn spec_bare_address(s: Seq<char>) -> Seq<char> {
    if s.len() > 0 && s[0] == '[' {
        let cut = s.take(spec_find_bracket_colon(s));
        spec_drop_end(spec_drop_start(cut, |c: char| c == '['), |c: char| c == ']')
    } else {
        s.take(spec_find(s, ':'))
    }
}

/// Remove port and IPv6 square brackets from a peer specification.
pub fn bare_address(val: &str) -> (r: &str)
    ensures
        r@ == spec_bare_address(val@),
{
    let n: usize = val.unicode_len();
    if n > 0 && val.get_char(0) == '[' {
        let mut cut_end: usize = n;
        let mut i: usize = 0;
        proof {
            lemma_find_bracket_colon_props(val@);
        }
        while i < n - 1
            invariant
                0 <= i <= n,
                n >= 1,
                n == val@.len(),
                cut_end == n ==> forall|j: int|
                    0 <= j < i && j + 1 < n ==> !(#[trigger] val@[j] == ']' && val@[j + 1] == ':'),
                cut_end != n ==> cut_end == spec_find_bracket_colon(val@),
                0 <= spec_find_bracket_colon(val@) <= n,
                spec_find_bracket_colon(val@) < n ==> val@[spec_find_bracket_colon(val@)] == ']'
                    && val@[spec_find_bracket_colon(val@) + 1] == ':',
                forall|j: int|
                    0 <= j < spec_find_bracket_colon(val@) && j + 1 < n ==> !(#[trigger] val@[j]
                        == ']' && val@[j + 1] == ':'),
            decreases n - i,
        {
            if cut_end == n && val.get_char(i) == ']' && val.get_char(i + 1) == ':' {
                proof {
                    let f = spec_find_bracket_colon(val@);
                    if f < i {
                        assert(!(val@[f] == ']' && val@[f + 1] == ':'));
                        assert(false);
                    }
                    if f > i {
                        assert(!(val@[i as int] == ']' && val@[i + 1] == ':'));
                        assert(false);
                    }
                }
                cut_end = i;
            }
            i = i + 1;
        }
        proof {
            if cut_end == n {
                let f = spec_find_bracket_colon(val@);
                if f < n {
                    assert(!(val@[f] == ']' && val@[f + 1] == ':'));
                    assert(false);
                }
            }
        }
        let cut = val.substring_char(0, cut_end);
        proof {
            assert(cut@ =~= val@.take(spec_find_bracket_colon(val@)));
        }
        // strip all leading '[' and all trailing ']'
        let m: usize = cut.unicode_len();
        let mut a: usize = 0;
        while a < m && cut.get_char(a) == '['
            invariant
                0 <= a <= m,
                m == cut@.len(),
                forall|j: int| 0 <= j < a ==> cut@[j] == '[',
            decreases m - a,
        {
            a = a + 1;
        }
        let mut b: usize = m;
        while b > a && cut.get_char(b - 1) == ']'
            invariant
                a <= b <= m,
                m == cut@.len(),
                forall|j: int| b <= j < m ==> cut@[j] == ']',
            decreases b,
        {
            b = b - 1;
        }
        let r = cut.substring_char(a, b);
        proof {
            let openp = |c: char| c == '[';
            let closep = |c: char| c == ']';
            lemma_drop_start_skip(cut@, openp, a as int);
            let t = cut@.skip(a as int);
            assert(forall|j: int| b - a <= j < t.len() ==> closep(t[j]));
            assert(b > a ==> !closep(t[b - a - 1]));
            lemma_drop_end_take(t, closep, b - a);
            assert(t.take(b - a) =~= cut@.subrange(a as int, b as int));
        }
        r
    } else {
        let f = find_char(val, ':');
        proof {
            lemma_find_props(val@, ':');
        }
        let r = val.substring_char(0, f);
        proof {
            assert(r@ =~= val@.take(spec_find(val@, ':')));
        }
        r
    }
}

/// Whether the ASCII-lower-cased form of `key` equals `pat`, which must hold
/// no upper-case ASCII letter.
pub(crate) fn eq_lowered(key: &str, pat: &str) -> (r: bool)
    requires
        forall|i: int| 0 <= i < pat@.len() ==> !('A' <= pat@[i] && pat@[i] <= 'Z'),
    ensures
        r == (spec_lower(key@) == pat@),
{
    let kn: usize = key.unicode_len();
    let pn: usize = pat.unicode_len();
    if kn != pn {
        proof {
            assert(spec_lower(key@).len() == key@.len());
        }
        return false;
    }
    let mut i: usize = 0;
    while i < kn
        invariant
            0 <= i <= kn,
            kn == key@.len() == pat@.len(),
            forall|j: int| 0 <= j < i ==> lower_char(key@[j]) == pat@[j],
            forall|j: int| 0 <= j < pat@.len() ==> !('A' <= pat@[j] && pat@[j] <= 'Z'),
        decreases kn - i,
    {
        let kc = key.get_char(i);
        let pc = pat.get_char(i);
        let m = kc == pc || ('A' <= kc && kc <= 'Z' && (kc as u32) + 32 == (pc as u32));
        if !m {
            proof {
                assert(lower_char(key@[i as int]) != pat@[i as int]);
                assert(spec_lower(key@)[i as int] == lower_char(key@[i as int]));
            }
            return false;
        }
        i = i + 1;
    }
    proof {
        assert(spec_lower(key@) =~= pat@);
    }
    true
}

/// The numeric value of a digit sequence, most significant digit first.
pub open spec fn digits_val(s: Seq<char>) -> int
    decreases s.len(),
{
    if s.len() == 0 {
        0
    } else {
        digits_val(s.drop_last()) * 10 + digit_val(s.last())
    }
}

/// The digits of a decimal number text: what follows an optional leading
/// plus sign.
pub open spec fn spec_u16_body(s: Seq<char>) -> Seq<char> {
    if s.len() > 0 && s[0] == '+' {
        s.drop_first()
    } else {
        s
    }
}

/// Every character is a decimal digit.
pub open spec fn all_digits(s: Seq<char>) -> bool {
    forall|i: int| 0 <= i < s.len() ==> is_digit(#[trigger] s[i])
}

/// The 16-bit number a text denotes, as `u16`'s decimal parser reads it: an
/// optional leading plus sign, then at least one digit, the value fitting in
/// 16 bits.
pub open spec fn spec_parse_u16(s: Seq<char>) -> Option<u16> {
    let body = spec_u16_body(s);
    if body.len() > 0 && all_digits(body) && digits_val(body) <= 65535 {
        Some(digits_val(body) as u16)
    } else {
        None
    }
}

/// Parses a decimal 16-bit number, as `str::parse::<u16>` does.
pub(crate) fn parse_u16_str(s: &str) -> (r: Option<u16>)
    ensures
        r == spec_parse_u16(s@),
{
    let n: usize = s.unicode_len();
    let start: usize = if n > 0 && s.get_char(0) == '+' {
        1
    } else {
        0
    };
    let ghost body = spec_u16_body(s@);
    proof {
        assert(body =~= s@.skip(start as int));
    }
    if n == start {
        return None;
    }
    let mut acc: u32 = 0;
    let mut over: bool = false;
    let mut i: usize = start;
    while i < n
        invariant
            start <= i <= n,
            n == s@.len(),
            body == spec_u16_body(s@),
            body == s@.skip(start as int),
            forall|j: int| start <= j < i ==> is_digit(s@[j]),
            !over ==> acc == digits_val(body.take(i - start)) && acc <= 65535,
            over ==> digits_val(body.take(i - start)) > 65535,
        decreases n - i,
    {
        let c = s.get_char(i);
        if !('0' <= c && c <= '9') {
            proof {
                assert(body[i - start] == s@[i as int]);
                assert(!is_digit(body[i - start]));
                assert(!all_digits(body));
            }
            return None;
        }
        let d: u32 = (c as u32) - 48;
        proof {
            assert(body.take(i - start + 1).drop_last() =~= body.take(i - start));
            assert(body.take(i - start + 1).last() == s@[i as int]);
        }
        if over {
            proof {
                assert(digits_val(body.take(i - start)) * 10 >= digits_val(body.take(i - start)))
                    by (nonlinear_arith)
                    requires
                        digits_val(body.take(i - start)) > 0,
                ;
            }
        } else {
            acc = acc * 10 + d;
            if acc > 65535 {
                over = true;
            }
        }
        i = i + 1;
    }
    proof {
        assert(body.take(n - start) =~= body);
    }
    if over {
        None
    } else {
        proof {
            assert(forall|j: int| 0 <= j < body.len() ==> #[trigger] body[j] == s@[j + start]);
            assert(all_digits(body));
        }
        Some(acc as u16)
    }
}

/// Two characters with the same lower-case form are both whitespace or
/// neither, and both the equals sign or neither: case folding only moves
/// within the ASCII letters.
pub proof fn lemma_lower_char_agreement(a: char, b: char)
    requires
        lower_char(a) == lower_char(b),
    ensures
        is_space(a) == is_space(b),
        (a == '=') == (b == '='),
{
}

/// Texts that agree up to ASCII case do so character by character.
pub proof fn lemma_lower_pointwise(p: Seq<char>, q: Seq<char>)
    requires
        spec_lower(p) == spec_lower(q),
    ensures
        p.len() == q.len(),
        forall|j: int| 0 <= j < p.len() ==> lower_char(#[trigger] p[j]) == lower_char(q[j]),
{
    assert(spec_lower(p).len() == p.len());
    assert(spec_lower(q).len() == q.len());
    assert forall|j: int| 0 <= j < p.len() implies lower_char(#[trigger] p[j]) == lower_char(
        q[j],
    ) by {
        assert(spec_lower(p)[j] == lower_char(p[j]));
        assert(spec_lower(q)[j] == lower_char(q[j]));
    }
}

/// Texts that agree up to ASCII case have the equals sign in the same
/// places; in particular its first occurrence is at the same index.
pub proof fn lemma_find_eq_agreement(p: Seq<char>, q: Seq<char>)
    requires
        spec_lower(p) == spec_lower(q),
    ensures
        spec_find(p, '=') == spec_find(q, '='),
    decreases p.len(),
{
    lemma_lower_pointwise(p, q);
    if p.len() == 0 {
    } else {
        lemma_lower_char_agreement(p[0], q[0]);
        if p[0] == '=' {
        } else {
            assert(spec_lower(p.drop_first()) =~= spec_lower(q.drop_first()));
            lemma_find_eq_agreement(p.drop_first(), q.drop_first());
        }
    }
}

/// Texts that agree up to ASCII case trim alike: their trimmed forms still
/// agree up to ASCII case.
pub proof fn lemma_trim_lower_agreement(p: Seq<char>, q: Seq<char>)
    requires
        spec_lower(p) == spec_lower(q),
    ensures
        spec_lower(spec_trim(p)) == spec_lower(spec_trim(q)),
{
    lemma_drop_start_lower_agreement(p, q);
    lemma_drop_end_lower_agreement(
        spec_drop_start(p, |c: char| is_space(c)),
        spec_drop_start(q, |c: char| is_space(c)),
    );
}

proof fn lemma_drop_start_lower_agreement(p: Seq<char>, q: Seq<char>)
    requires
        spec_lower(p) == spec_lower(q),
    ensures
        spec_lower(spec_drop_start(p, |c: char| is_space(c))) == spec_lower(
            spec_drop_start(q, |c: char| is_space(c)),
        ),
    decreases p.len(),
{
    lemma_lower_pointwise(p, q);
    if p.len() == 0 {
    } else {
        lemma_lower_char_agreement(p[0], q[0]);
        if is_space(p[0]) {
            assert(spec_lower(p.drop_first()) =~= spec_lower(q.drop_first()));
            lemma_drop_start_lower_agreement(p.drop_first(), q.drop_first());
        }
    }
}

proof fn lemma_drop_end_lower_agreement(p: Seq<char>, q: Seq<char>)
    requires
        spec_lower(p) == spec_lower(q),
    ensures
        spec_lower(spec_drop_end(p, |c: char| is_space(c))) == spec_lower(
            spec_drop_end(q, |c: char| is_space(c)),
        ),
    decreases p.len(),
{
    lemma_lower_pointwise(p, q);
    if p.len() == 0 {
    } else {
        lemma_lower_char_agreement(p.last(), q.last());
        if is_space(p.last()) {
            assert(spec_lower(p.drop_last()) =~= spec_lower(q.drop_last()));
            lemma_drop_end_lower_agreement(p.drop_last(), q.drop_last());
        }
    }
}

/// The index of the last occurrence of `c` in `s`, or `-1` if there is none.
pub open spec fn spec_rfind(s: Seq<char>, c: char) -> int
    decreases s.len(),
{
    if s.len() == 0 {
        -1
    } else if s.last() == c {
        s.len() - 1
    } else {
        spec_rfind(s.drop_last(), c)
    }
}

pub proof fn lemma_rfind_props(s: Seq<char>, c: char)
    ensures
        -1 <= spec_rfind(s, c) < s.len(),
        spec_rfind(s, c) >= 0 ==> s[spec_rfind(s, c)] == c,
        forall|j: int| spec_rfind(s, c) < j < s.len() ==> s[j] != c,
    decreases s.len(),
{
    if s.len() == 0 {
    } else if s.last() == c {
    } else {
        lemma_rfind_props(s.drop_last(), c);
        assert forall|j: int| spec_rfind(s, c) < j < s.len() implies s[j] != c by {
            if j < s.len() - 1 {
                assert(s.drop_last()[j] == s[j]);
            }
        }
    }
}

/// Index of the last occurrence of `c`, or nothing when `c` is absent.
pub(crate) fn rfind_char(s: &str, c: char) -> (r: Option<usize>)
    ensures
        r is Some <==> spec_rfind(s@, c) >= 0,
        r is Some ==> r.unwrap() == spec_rfind(s@, c),
{
    proof {
        lemma_rfind_props(s@, c);
    }
    let n: usize = s.unicode_len();
    let mut b: usize = n;
    while b > 0
        invariant
            0 <= b <= n,
            n == s@.len(),
            forall|j: int| b <= j < n ==> s@[j] != c,
            -1 <= spec_rfind(s@, c) < s@.len(),
            spec_rfind(s@, c) >= 0 ==> s@[spec_rfind(s@, c)] == c,
            forall|j: int| spec_rfind(s@, c) < j < s@.len() ==> s@[j] != c,
        decreases b,
    {
        if s.get_char(b - 1) == c {
            return Some(b - 1);
        }
        b = b - 1;
    }
    None
}

} // verus!
