//! Character-level helpers shared by the line parsers.
use vstd::prelude::*;
use vstd::string::*;

verus! {

/// Index of the first character of `s` equal to `a` or `b`; `s.len()` when there is none.
pub open spec fn stop_index(s: Seq<char>, a: char, b: char) -> int
    decreases s.len(),
{
    if s.len() == 0 {
        0
    } else if s[0] == a || s[0] == b {
        0
    } else {
        1 + stop_index(s.drop_first(), a, b)
    }
}

/// What `stop_index` is: the first stop, or the end.
pub proof fn lemma_stop_index(s: Seq<char>, a: char, b: char)
    ensures
        0 <= stop_index(s, a, b) <= s.len(),
        forall|i: int| 0 <= i < stop_index(s, a, b) ==> s[i] != a && s[i] != b,
        stop_index(s, a, b) < s.len() ==> (s[stop_index(s, a, b)] == a || s[stop_index(
            s,
            a,
            b,
        )] == b),
    decreases s.len(),
{
    if s.len() > 0 && s[0] != a && s[0] != b {
        lemma_stop_index(s.drop_first(), a, b);
        assert forall|i: int| 0 <= i < stop_index(s, a, b) implies s[i] != a && s[i] != b by {
            if i > 0 {
                assert(s[i] == s.drop_first()[i - 1]);
            }
        }
    }
}

/// `stop_index` is the one position that has no stop before it and a stop (or the end) at it.
pub proof fn lemma_stop_index_at(s: Seq<char>, a: char, b: char, p: int)
    requires
        0 <= p <= s.len(),
        forall|i: int| 0 <= i < p ==> s[i] != a && s[i] != b,
        p < s.len() ==> (s[p] == a || s[p] == b),
    ensures
        stop_index(s, a, b) == p,
    decreases s.len(),
{
    if p > 0 {
        assert forall|i: int| 0 <= i < p - 1 implies s.drop_first()[i] != a && s.drop_first()[i] != b by {
            assert(s.drop_first()[i] == s[i + 1]);
        }
        lemma_stop_index_at(s.drop_first(), a, b, p - 1);
    }
}

/// The characters of `s`, in order.
pub fn chars_of(s: &str) -> (r: Vec<char>)
    ensures
        r@ == s@,
{
    broadcast use group_string_axioms;
    let mut r: Vec<char> = Vec::new();
    for c in it: s.chars()
        invariant
            r@ == it.seq().take(it.index() as int),
    {
        r.push(c);
    }
    r
}

/// Index of the first character at or after `from` that is `a` or `b`; `s.len()` when none is.
pub fn scan_until(s: &Vec<char>, from: usize, a: char, b: char) -> (end: usize)
    requires
        from <= s.len(),
    ensures
        end == from + stop_index(s@.skip(from as int), a, b),
        from <= end <= s.len(),
{
    proof {
        lemma_stop_index(s@.skip(from as int), a, b);
    }
    let mut i = from;
    while i < s.len() && s[i] != a && s[i] != b
        invariant
            from <= i <= s.len(),
            0 <= stop_index(s@.skip(from as int), a, b) <= s.len() - from,
            forall|k: int| 0 <= k < stop_index(s@.skip(from as int), a, b) ==> s@.skip(from as int)[k] != a && s@.skip(from as int)[k] != b,
            stop_index(s@.skip(from as int), a, b) < s.len() - from ==> (s@.skip(from as int)[stop_index(s@.skip(from as int), a, b)] == a || s@.skip(from as int)[stop_index(s@.skip(from as int), a, b)] == b),
            forall|k: int| from <= k < i ==> s@[k] != a && s@[k] != b,
        decreases s.len() - i,
    {
        i = i + 1;
    }
    proof {
        let t = s@.skip(from as int);
        let e = stop_index(t, a, b);
        if e < i - from {
            assert(t[e] == s@[from + e]);
        }
        if i < s.len() && i - from < e {
            assert(t[i - from] == s@[i as int]);
        }
    }
    i
}

/// Relies on `String::push`: it appends one character.
#[verifier::external_body]
pub(crate) fn push_char(s: &mut String, c: char)
    ensures
        final(s)@ == old(s)@.push(c),
{
    s.push(c)
}

/// The characters `s[from..to]` as a string.
pub fn string_of(s: &Vec<char>, from: usize, to: usize) -> (r: String)
    requires
        from <= to <= s.len(),
    ensures
        r@ == s@.subrange(from as int, to as int),
{
    let mut r = String::new();
    let mut i = from;
    while i < to
        invariant
            from <= i <= to <= s.len(),
            r@ == s@.subrange(from as int, i as int),
        decreases to - i,
    {
        push_char(&mut r, s[i]);
        assert(s@.subrange(from as int, i + 1) == s@.subrange(from as int, i as int).push(s@[i as int]));
        i = i + 1;
    }
    r
}

/// The upper-case form of a string, as `str::to_uppercase` gives it.
pub uninterp spec fn upper_of(s: Seq<char>) -> Seq<char>;

/// Relies on `str::to_uppercase`: the result depends on the characters alone.
#[verifier::external_body]
pub(crate) fn to_uppercase(s: &str) -> (r: String)
    ensures
        r@ == upper_of(s@),
{
    s.to_uppercase()
}

/// `s` with every `-` replaced by `_`.
pub open spec fn underscored(s: Seq<char>) -> Seq<char> {
    Seq::new(s.len(), |i: int| if s[i] == '-' { '_' } else { s[i] })
}

/// Replaces every `-` of `s` by `_`, leaving every other character in place.
pub fn underscore_dashes(s: &String) -> (r: String)
    ensures
        r@ == underscored(s@),
{
    let cs = chars_of(s.as_str());
    let mut r = String::new();
    let mut i: usize = 0;
    while i < cs.len()
        invariant
            i <= cs.len(),
            cs@ == s@,
            r@ == underscored(s@).take(i as int),
        decreases cs.len() - i,
    {
        let c = cs[i];
        if c == '-' {
            push_char(&mut r, '_');
        } else {
            push_char(&mut r, c);
        }
        assert(underscored(s@).take(i + 1) == underscored(s@).take(i as int).push(
            underscored(s@)[i as int],
        ));
        i = i + 1;
    }
    assert(underscored(s@).take(i as int) == underscored(s@));
    r
}

/// Whether `c` is one of the ASCII digits `0` to `9`.
pub open spec fn is_digit(c: char) -> bool {
    '0' <= c <= '9'
}

/// The number written by the decimal digits `s`, most significant first.
pub open spec fn digits_value(s: Seq<char>) -> nat
    decreases s.len(),
{
    if s.len() == 0 {
        0
    } else {
        digits_value(s.drop_last()) * 10 + ((s.last() as u32 - '0' as u32) as nat)
    }
}

/// `s` without one leading `+`, if it has one.
pub open spec fn unsigned_digits(s: Seq<char>) -> Seq<char> {
    if s.len() > 0 && s[0] == '+' {
        s.drop_first()
    } else {
        s
    }
}

/// The `usize` that `s` writes in decimal: an optional `+` and then at least one digit,
/// with no other character, of a value that fits; `None` for any other text.
pub open spec fn usize_of_decimal(s: Seq<char>) -> Option<usize> {
    let d = unsigned_digits(s);
    if d.len() > 0 && (forall|i: int| 0 <= i < d.len() ==> is_digit(#[trigger] d[i]))
        && digits_value(d) <= usize::MAX {
        Some(digits_value(d) as usize)
    } else {
        None
    }
}

/// Relies on `str::parse::<usize>`: an optional `+` and decimal digits, without
/// whitespace, of a value that fits, and an error for anything else.
#[verifier::external_body]
pub(crate) fn parse_usize(s: &str) -> (r: Option<usize>)
    ensures
        r == usize_of_decimal(s@),
{
    s.parse::<usize>().ok()
}

} // verus!
