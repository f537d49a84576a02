//! Text helpers: splitting, joining and the fixed spellings of values.

use vstd::prelude::*;

use crate::sort_key::{compare_text, KeyOrder};

verus! {

/// The character views of a sequence of strings.
pub open spec fn views(v: Seq<String>) -> Seq<Seq<char>> {
    Seq::new(v.len(), |i: int| v[i]@)
}

/// The pieces of `s` between occurrences of `c`, as `str::split` yields them
/// (always at least one piece; empty pieces are kept).
pub open spec fn split_spec(s: Seq<char>, c: char) -> Seq<Seq<char>>
    decreases s.len(),
{
    if s.len() == 0 {
        seq![Seq::<char>::empty()]
    } else {
        let rest = split_spec(s.drop_first(), c);
        if s[0] == c {
            seq![Seq::<char>::empty()] + rest
        } else {
            rest.update(0, seq![s[0]] + rest[0])
        }
    }
}

/// `split_spec` yields at least one piece.
pub proof fn lemma_split_nonempty(s: Seq<char>, c: char)
    ensures
        split_spec(s, c).len() >= 1,
    decreases s.len(),
{
    if s.len() > 0 {
        lemma_split_nonempty(s.drop_first(), c);
    }
}

/// Splitting the tail of `s` from `a`, when the first separator from `a` is at `b`
/// (or there is none and `b` is the end).
proof fn lemma_split_segment(s: Seq<char>, c: char, a: int, b: int)
    requires
        0 <= a <= b <= s.len(),
        forall|k: int| a <= k < b ==> s[k] != c,
        b < s.len() ==> s[b] == c,
    ensures
        split_spec(s.subrange(a, s.len() as int), c) == seq![s.subrange(a, b)] + (if b == s.len() {
            Seq::<Seq<char>>::empty()
        } else {
            split_spec(s.subrange(b + 1, s.len() as int), c)
        }),
    decreases b - a,
{
    let t = s.subrange(a, s.len() as int);
    if a == b {
        if b == s.len() {
            assert(t =~= Seq::<char>::empty());
            assert(s.subrange(a, b) =~= Seq::<char>::empty());
            assert(split_spec(t, c) =~= seq![Seq::<char>::empty()]);
        } else {
            assert(t[0] == c);
            assert(t.drop_first() =~= s.subrange(b + 1, s.len() as int));
            assert(s.subrange(a, b) =~= Seq::<char>::empty());
        }
    } else {
        lemma_split_segment(s, c, a + 1, b);
        assert(t[0] == s[a]);
        assert(t.drop_first() =~= s.subrange(a + 1, s.len() as int));
        let rest = split_spec(t.drop_first(), c);
        assert(seq![s[a]] + s.subrange(a + 1, b) =~= s.subrange(a, b));
        assert(rest.update(0, seq![s[a]] + rest[0]) =~= seq![s.subrange(a, b)] + (if b == s.len() {
            Seq::<Seq<char>>::empty()
        } else {
            split_spec(s.subrange(b + 1, s.len() as int), c)
        }));
    }
}

/// Splits `s` at every occurrence of `c`, as `str::split` does.
pub fn split_text(s: &str, c: char) -> (r: Vec<String>)
    ensures
        views(r@) == split_spec(s@, c),
{
    let n = s.unicode_len();
    let mut pieces: Vec<String> = Vec::new();
    let mut start: usize = 0;
    let mut i: usize = 0;
    proof {
        assert(s@.subrange(0, n as int) =~= s@);
    }
    while i < n
        invariant
            n == s@.len(),
            start <= i <= n,
            forall|k: int| start <= k < i ==> s@[k] != c,
            views(pieces@) + split_spec(s@.subrange(start as int, n as int), c) == split_spec(s@, c),
        decreases n - i,
    {
        let ch = s.get_char(i);
        if ch == c {
            let piece = s.substring_char(start, i).to_owned();
            proof {
                lemma_split_segment(s@, c, start as int, i as int);
                let before = views(pieces@);
                assert(views(pieces@.push(piece)) =~= before.push(piece@));
                assert(before.push(piece@) + split_spec(s@.subrange(i + 1, n as int), c) =~= before + (
                seq![s@.subrange(start as int, i as int)] + split_spec(s@.subrange(i + 1, n as int), c)));
            }
            pieces.push(piece);
            start = i + 1;
        }
        i = i + 1;
    }
    let piece = s.substring_char(start, n).to_owned();
    proof {
        lemma_split_segment(s@, c, start as int, n as int);
        let before = views(pieces@);
        assert(views(pieces@.push(piece)) =~= before.push(piece@));
        assert(before.push(piece@) =~= before + seq![s@.subrange(start as int, n as int)]);
    }
    pieces.push(piece);
    pieces
}

/// The spelling of a boolean, as `Display` writes it.
pub open spec fn bool_text(b: bool) -> Seq<char> {
    if b {
        seq!['t', 'r', 'u', 'e']
    } else {
        seq!['f', 'a', 'l', 's', 'e']
    }
}

/// What `bool::from_str` accepts: exactly `true` or `false`.
pub open spec fn bool_value(s: Seq<char>) -> Option<bool> {
    if s == bool_text(true) {
        Some(true)
    } else if s == bool_text(false) {
        Some(false)
    } else {
        None
    }
}

/// Writes a boolean as `true` or `false`.
pub fn write_bool(b: bool) -> (r: String)
    ensures
        r@ == bool_text(b),
{
    if b {
        let t = "true";
        proof {
            reveal_strlit("true");
        }
        t.to_owned()
    } else {
        let f = "false";
        proof {
            reveal_strlit("false");
        }
        f.to_owned()
    }
}

/// Reads `true` or `false`; anything else is refused.
pub fn read_bool(s: &str) -> (r: Option<bool>)
    ensures
        r == bool_value(s@),
{
    let t = "true";
    let f = "false";
    proof {
        reveal_strlit("true");
        reveal_strlit("false");
        assert(t@ =~= bool_text(true));
        assert(f@ =~= bool_text(false));
    }
    if compare_text(s, t) == KeyOrder::Equal {
        Some(true)
    } else if compare_text(s, f) == KeyOrder::Equal {
        Some(false)
    } else {
        None
    }
}

/// Concatenates two strings.
pub fn join2(a: &str, b: &str) -> (r: String)
    ensures
        r@ == a@ + b@,
{
    a.to_owned().concat(b)
}

/// Concatenates three strings.
pub fn join3(a: &str, b: &str, c: &str) -> (r: String)
    ensures
        r@ == a@ + b@ + c@,
{
    a.to_owned().concat(b).concat(c)
}

/// Equality of two texts.
pub fn same_text(a: &str, b: &str) -> (r: bool)
    ensures
        r == (a@ == b@),
{
    compare_text(a, b) == KeyOrder::Equal
}

/// Splitting a text with no separator gives the text itself.
pub proof fn lemma_split_no_sep(s: Seq<char>, c: char)
    requires
        forall|k: int| 0 <= k < s.len() ==> s[k] != c,
    ensures
        split_spec(s, c) == seq![s],
{
    lemma_split_segment(s, c, 0, s.len() as int);
    assert(s.subrange(0, s.len() as int) =~= s);
}

/// Splitting `a`, a separator, then `b`, when `a` holds no separator.
pub proof fn lemma_split_concat(a: Seq<char>, b: Seq<char>, c: char)
    requires
        forall|k: int| 0 <= k < a.len() ==> a[k] != c,
    ensures
        split_spec(a + seq![c] + b, c) == seq![a] + split_spec(b, c),
{
    let s = a + seq![c] + b;
    assert forall|k: int| 0 <= k < a.len() implies s[k] != c by {
        assert(s[k] == a[k]);
    }
    assert(s[a.len() as int] == c);
    lemma_split_segment(s, c, 0, a.len() as int);
    assert(s.subrange(0, s.len() as int) =~= s);
    assert(s.subrange(0, a.len() as int) =~= a);
    assert(s.subrange(a.len() as int + 1, s.len() as int) =~= b);
}

/// The digits `0`-`9`.
pub open spec fn is_digit(ch: char) -> bool {
    '0' <= ch <= '9'
}

/// The value of a sequence of decimal digits.
pub open spec fn digits_value(s: Seq<char>) -> int
    decreases s.len(),
{
    if s.len() == 0 {
        0
    } else {
        digits_value(s.drop_last()) * 10 + (s.last() as int - '0' as int)
    }
}

/// What `i64::from_str` accepts: an optional `+` or `-` sign followed by one
/// or more decimal digits, whose value fits in an `i64`.
pub open spec fn i64_text_value(s: Seq<char>) -> Option<i64> {
    let neg = s.len() > 0 && s[0] == '-';
    let signed = s.len() > 0 && (s[0] == '-' || s[0] == '+');
    let body = if signed { s.drop_first() } else { s };
    let v = if neg { -digits_value(body) } else { digits_value(body) };
    if body.len() == 0 || !(forall|k: int| 0 <= k < body.len() ==> is_digit(#[trigger] body[k])) {
        None
    } else if i64::MIN <= v <= i64::MAX {
        Some(v as i64)
    } else {
        None
    }
}

/// `<i64 as FromStr>::from_str`, which the standard library documents as
/// accepting an optional sign followed by digits, within range.
#[verifier::external_body]
pub(crate) fn read_i64(s: &str) -> (r: Option<i64>)
    ensures
        r == i64_text_value(s@),
{
    s.parse::<i64>().ok()
}

} // verus!
