//! The `Name: Value` line parser, used for request headers and for the CGI
//! program's reply alike.
use vstd::prelude::*;
use crate::text::{chars_of, lemma_stop_index_at, push_char, scan_until, stop_index, string_of, to_uppercase, underscore_dashes, underscored, upper_of};

verus! {

/// Whether the line holds a `:`.
pub open spec fn has_colon(s: Seq<char>) -> bool {
    stop_index(s, ':', ':') < s.len()
}

/// The characters before the first `:`.
pub open spec fn raw_name(s: Seq<char>) -> Seq<char> {
    s.take(stop_index(s, ':', ':'))
}

/// The characters after the first `:`.
pub open spec fn after_colon(s: Seq<char>) -> Seq<char> {
    s.skip(stop_index(s, ':', ':') + 1)
}

/// The length of the run of spaces that `s` starts with.
pub open spec fn space_run(s: Seq<char>) -> int
    decreases s.len(),
{
    if s.len() > 0 && s[0] == ' ' {
        1 + space_run(s.drop_first())
    } else {
        0
    }
}

/// What `space_run` is: spaces up to it, and no space at it.
pub proof fn lemma_space_run(s: Seq<char>)
    ensures
        0 <= space_run(s) <= s.len(),
        forall|i: int| 0 <= i < space_run(s) ==> s[i] == ' ',
        space_run(s) < s.len() ==> s[space_run(s)] != ' ',
    decreases s.len(),
{
    if s.len() > 0 && s[0] == ' ' {
        lemma_space_run(s.drop_first());
        assert forall|i: int| 0 <= i < space_run(s) implies s[i] == ' ' by {
            if i > 0 {
                assert(s[i] == s.drop_first()[i - 1]);
            }
        }
    }
}

/// `space_run` is the one position with only spaces before it and no space at it.
pub proof fn lemma_space_run_at(s: Seq<char>, p: int)
    requires
        0 <= p <= s.len(),
        forall|i: int| 0 <= i < p ==> s[i] == ' ',
        p < s.len() ==> s[p] != ' ',
    ensures
        space_run(s) == p,
    decreases s.len(),
{
    if p > 0 {
        assert forall|i: int| 0 <= i < p - 1 implies s.drop_first()[i] == ' ' by {
            assert(s.drop_first()[i] == s[i + 1]);
        }
        lemma_space_run_at(s.drop_first(), p - 1);
    }
}

/// The value that follows the colon: the leading spaces skipped, then the first
/// other character kept whatever it is, then everything up to the next `\r` or `\n`.
pub open spec fn field_value(t: Seq<char>) -> Seq<char> {
    let w = space_run(t);
    if w < t.len() {
        let rest = t.skip(w + 1);
        seq![t[w]] + rest.take(stop_index(rest, '\r', '\n'))
    } else {
        Seq::empty()
    }
}

/// The value of a header line.
pub open spec fn header_value(s: Seq<char>) -> Seq<char> {
    field_value(after_colon(s))
}

/// The normalised name of a header line: upper-cased, with `-` turned into `_`.
pub open spec fn header_name(s: Seq<char>) -> Seq<char> {
    underscored(upper_of(raw_name(s)))
}

/// Splits a header line at its first `:` into the name as written and the value.
/// Returns `None` when the line has no `:`.
pub fn split_header(line: &String) -> (r: Option<(String, String)>)
    ensures
        r is None <==> !has_colon(line@),
        r matches Some((n, v)) ==> n@ == raw_name(line@) && v@ == header_value(line@),
{
    let cs = chars_of(line.as_str());
    let colon = scan_until(&cs, 0, ':', ':');
    assert(cs@.skip(0) == cs@);
    if colon == cs.len() {
        return None;
    }
    let name = string_of(&cs, 0, colon);
    let start = colon + 1;
    let ghost t = cs@.skip(start as int);
    proof {
        lemma_space_run(t);
    }
    let mut i = start;
    while i < cs.len() && cs[i] == ' '
        invariant
            start <= i <= cs.len(),
            t == cs@.skip(start as int),
            forall|k: int| start <= k < i ==> cs@[k] == ' ',
            0 <= space_run(t) <= t.len(),
            forall|k: int| 0 <= k < space_run(t) ==> t[k] == ' ',
            space_run(t) < t.len() ==> t[space_run(t)] != ' ',
        decreases cs.len() - i,
    {
        i = i + 1;
    }
    proof {
        let w = space_run(t);
        if w < i - start {
            assert(t[w] == cs@[start + w]);
        }
        if i < cs.len() && i - start < w {
            assert(t[i - start] == cs@[i as int]);
        }
    }
    let mut value = String::new();
    if i < cs.len() {
        push_char(&mut value, cs[i]);
        let end = scan_until(&cs, i + 1, '\r', '\n');
        let tail = string_of(&cs, i + 1, end);
        value = value.concat(tail.as_str());
        assert(t.skip(i - start + 1) == cs@.skip(i + 1));
        assert(cs@.skip(i + 1).take(end - (i + 1)) == cs@.subrange(i + 1, end as int));
        assert(t[i - start] == cs@[i as int]);
        assert(seq![cs@[i as int]] == seq![].push(cs@[i as int]));
    }
    Some((name, value))
}

/// Parses a `Name: Value` line into its normalised name and its value.
/// Fails when the line has no `:`, the one malformed shape.
pub fn parse_header(line: &String) -> (r: Result<(String, String), ()>)
    ensures
        r is Err <==> !has_colon(line@),
        r matches Ok((k, v)) ==> k@ == header_name(line@) && v@ == header_value(line@),
{
    match split_header(line) {
        None => Err(()),
        Some((name, value)) => {
            let upper = to_uppercase(name.as_str());
            Ok((underscore_dashes(&upper), value))
        },
    }
}

/// A line `name: value` ended by `\r` or `\n`, with any run of spaces after the colon,
/// parses to the name upper-cased with `-` turned into `_`, and to the value as written:
/// the spaces and the line ending are dropped. The name holds no `:`; the value is not
/// empty, does not start with a space and holds no `\r` or `\n`.
pub proof fn lemma_well_formed_header(name: Seq<char>, spaces: nat, value: Seq<char>, end: char)
    requires
        end == '\r' || end == '\n',
        forall|i: int| 0 <= i < name.len() ==> name[i] != ':',
        value.len() > 0,
        value[0] != ' ',
        forall|i: int| 0 <= i < value.len() ==> value[i] != '\r' && value[i] != '\n',
    ensures
        ({
            let line = name + seq![':'] + Seq::new(spaces, |i: int| ' ') + value + seq![end];
            &&& has_colon(line)
            &&& header_name(line) == underscored(upper_of(name))
            &&& header_value(line) == value
        }),
{
    let sp = Seq::new(spaces, |i: int| ' ');
    let line = name + seq![':'] + sp + value + seq![end];
    let n = name.len() as int;
    assert forall|i: int| 0 <= i < n implies line[i] != ':' && line[i] != ':' by {
        assert(line[i] == name[i]);
    }
    assert(line[n] == ':');
    lemma_stop_index_at(line, ':', ':', n);
    assert(raw_name(line) == name);
    let t = after_colon(line);
    assert(t == sp + value + seq![end]);
    assert forall|i: int| 0 <= i < spaces implies t[i] == ' ' by {
        assert(t[i] == sp[i]);
    }
    assert(t[spaces as int] == value[0]);
    lemma_space_run_at(t, spaces as int);
    let rest = t.skip(spaces + 1 as int);
    assert(rest == value.drop_first() + seq![end]);
    let m = value.len() - 1;
    assert forall|i: int| 0 <= i < m implies rest[i] != '\r' && rest[i] != '\n' by {
        assert(rest[i] == value[i + 1]);
    }
    assert(rest[m] == end);
    lemma_stop_index_at(rest, '\r', '\n', m);
    assert(rest.take(m) == value.drop_first());
    assert(seq![value[0]] + value.drop_first() == value);
}

} // verus!
