//! Character-level escaping of messages and property values.
use vstd::prelude::*;

verus! {

broadcast use vstd::string::group_string_axioms;

/// Applies `f` to each character of `s` and concatenates the pieces.
pub open spec fn char_map(s: Seq<char>, f: spec_fn(char) -> Seq<char>) -> Seq<char>
    decreases s.len(),
{
    if s.len() == 0 {
        Seq::empty()
    } else {
        char_map(s.drop_last(), f) + f(s.last())
    }
}

/// How one character of data (a message, or a property value before the
/// property pass) is written on the wire.
pub open spec fn data_char_escape(c: char) -> Seq<char> {
    if c == '%' {
        seq!['%', '2', '5']
    } else if c == '\r' {
        seq!['%', '0', 'D']
    } else if c == '\n' {
        seq!['%', '0', 'A']
    } else {
        seq![c]
    }
}

/// How one character of a property value is written on the wire.
pub open spec fn property_char_escape(c: char) -> Seq<char> {
    if c == ':' {
        seq!['%', '3', 'A']
    } else if c == ',' {
        seq!['%', '2', 'C']
    } else {
        data_char_escape(c)
    }
}

/// The data-escaped form of `s`.
pub open spec fn escaped_data(s: Seq<char>) -> Seq<char> {
    char_map(s, |c: char| data_char_escape(c))
}

/// The property-escaped form of `s`.
pub open spec fn escaped_property(s: Seq<char>) -> Seq<char> {
    char_map(s, |c: char| property_char_escape(c))
}

/// `s` with every occurrence of `c` replaced by `t`, the other characters
/// kept in place.
pub open spec fn replace_char(s: Seq<char>, c: char, t: Seq<char>) -> Seq<char> {
    char_map(s, replacer(c, t))
}

/// The piece that `replace_char` writes for one character.
pub open spec fn replacer(c: char, t: Seq<char>) -> spec_fn(char) -> Seq<char> {
    |x: char| if x == c { t } else { seq![x] }
}

/// Data escaping written as the three textual substitutions in their order:
/// first `%`, then carriage return, then line feed.
pub open spec fn data_substitutions(s: Seq<char>) -> Seq<char> {
    replace_char(
        replace_char(replace_char(s, '%', seq!['%', '2', '5']), '\r', seq!['%', '0', 'D']),
        '\n',
        seq!['%', '0', 'A'],
    )
}

/// Property escaping written as substitutions: the data escaping first, then
/// `:` and `,`.
pub open spec fn property_substitutions(s: Seq<char>) -> Seq<char> {
    replace_char(
        replace_char(data_substitutions(s), ':', seq!['%', '3', 'A']),
        ',',
        seq!['%', '2', 'C'],
    )
}

/// Whether `s` starts with `%` followed by the two characters `a` and `b`.
pub open spec fn starts_with_code(s: Seq<char>, a: char, b: char) -> bool {
    s.len() >= 3 && s[0] == '%' && s[1] == a && s[2] == b
}

/// Reads data-escaped text back, as the orchestrator's parser does.
pub open spec fn unescape_data(s: Seq<char>) -> Seq<char>
    decreases s.len(),
{
    if s.len() == 0 {
        Seq::empty()
    } else if starts_with_code(s, '2', '5') {
        seq!['%'] + unescape_data(s.skip(3))
    } else if starts_with_code(s, '0', 'D') {
        seq!['\r'] + unescape_data(s.skip(3))
    } else if starts_with_code(s, '0', 'A') {
        seq!['\n'] + unescape_data(s.skip(3))
    } else {
        seq![s[0]] + unescape_data(s.skip(1))
    }
}

/// Reads a property-escaped value back.
pub open spec fn unescape_property(s: Seq<char>) -> Seq<char>
    decreases s.len(),
{
    if s.len() == 0 {
        Seq::empty()
    } else if starts_with_code(s, '3', 'A') {
        seq![':'] + unescape_property(s.skip(3))
    } else if starts_with_code(s, '2', 'C') {
        seq![','] + unescape_property(s.skip(3))
    } else if starts_with_code(s, '2', '5') {
        seq!['%'] + unescape_property(s.skip(3))
    } else if starts_with_code(s, '0', 'D') {
        seq!['\r'] + unescape_property(s.skip(3))
    } else if starts_with_code(s, '0', 'A') {
        seq!['\n'] + unescape_property(s.skip(3))
    } else {
        seq![s[0]] + unescape_property(s.skip(1))
    }
}

pub proof fn lemma_char_map_concat(a: Seq<char>, b: Seq<char>, f: spec_fn(char) -> Seq<char>)
    ensures
        char_map(a + b, f) == char_map(a, f) + char_map(b, f),
    decreases b.len(),
{
    if b.len() == 0 {
        assert(a + b =~= a);
        assert(char_map(a, f) + char_map(b, f) =~= char_map(a, f));
    } else {
        assert((a + b).drop_last() =~= a + b.drop_last());
        assert((a + b).last() == b.last());
        lemma_char_map_concat(a, b.drop_last(), f);
        assert(char_map(a + b, f) =~= char_map(a, f) + char_map(b, f));
    }
}

pub proof fn lemma_char_map_single(x: char, f: spec_fn(char) -> Seq<char>)
    ensures
        char_map(seq![x], f) == f(x),
{
    assert(seq![x].drop_last() =~= Seq::<char>::empty());
    assert(seq![x].last() == x);
    assert(char_map(Seq::<char>::empty(), f) + f(x) =~= f(x));
}

/// Splits the escaped form of `s` into that of its first character and
/// that of the rest.
proof fn lemma_char_map_first(s: Seq<char>, f: spec_fn(char) -> Seq<char>)
    requires
        s.len() > 0,
    ensures
        char_map(s, f) == f(s[0]) + char_map(s.skip(1), f),
{
    assert(s =~= seq![s[0]] + s.skip(1));
    lemma_char_map_concat(seq![s[0]], s.skip(1), f);
    lemma_char_map_single(s[0], f);
}

/// Replacing a character that does not occur changes nothing.
proof fn lemma_replace_absent(s: Seq<char>, c: char, t: Seq<char>)
    requires
        forall|i: int| 0 <= i < s.len() ==> s[i] != c,
    ensures
        replace_char(s, c, t) == s,
    decreases s.len(),
{
    if s.len() > 0 {
        lemma_replace_absent(s.drop_last(), c, t);
        assert(s.drop_last() + seq![s.last()] =~= s);
    }
}

/// Decoding the data-escaped form of any text gives the text back.
pub proof fn lemma_data_round_trip(s: Seq<char>)
    ensures
        unescape_data(escaped_data(s)) == s,
    decreases s.len(),
{
    if s.len() > 0 {
        let f = |c: char| data_char_escape(c);
        let rest = escaped_data(s.skip(1));
        lemma_char_map_first(s, f);
        lemma_data_round_trip(s.skip(1));
        let e = data_char_escape(s[0]);
        assert((e + rest).skip(e.len() as int) =~= rest);
        assert(s =~= seq![s[0]] + s.skip(1));
    }
}

/// Decoding the property-escaped form of any text gives the text back.
pub proof fn lemma_property_round_trip(s: Seq<char>)
    ensures
        unescape_property(escaped_property(s)) == s,
    decreases s.len(),
{
    if s.len() > 0 {
        let f = |c: char| property_char_escape(c);
        let rest = escaped_property(s.skip(1));
        lemma_char_map_first(s, f);
        lemma_property_round_trip(s.skip(1));
        let e = property_char_escape(s[0]);
        assert((e + rest).skip(e.len() as int) =~= rest);
        assert(s =~= seq![s[0]] + s.skip(1));
    }
}

/// The three substitutions applied in turn to one character.
proof fn lemma_data_substitutions_single(x: char)
    ensures
        data_substitutions(seq![x]) == data_char_escape(x),
{
    let p = seq!['%', '2', '5'];
    let d = seq!['%', '0', 'D'];
    let a = seq!['%', '0', 'A'];
    let f1 = replacer('%', p);
    let f2 = replacer('\r', d);
    let f3 = replacer('\n', a);
    lemma_char_map_single(x, f1);
    let s1 = replace_char(seq![x], '%', p);
    if x == '%' {
        assert(s1 == p);
        lemma_replace_absent(p, '\r', d);
        lemma_replace_absent(p, '\n', a);
    } else {
        assert(s1 == seq![x]);
        lemma_char_map_single(x, f2);
        if x == '\r' {
            lemma_replace_absent(d, '\n', a);
        } else {
            lemma_char_map_single(x, f3);
        }
    }
}

/// Data escaping is exactly `%` to `%25`, then carriage return to `%0D`,
/// then line feed to `%0A`, as whole-text substitutions in that order: the
/// `%` that the later substitutions introduce is never escaped again.
pub proof fn lemma_data_escape_is_ordered_substitution(s: Seq<char>)
    ensures
        escaped_data(s) == data_substitutions(s),
    decreases s.len(),
{
    if s.len() > 0 {
        let p = s.drop_last();
        let x = s.last();
        let f1 = replacer('%', seq!['%', '2', '5']);
        let f2 = replacer('\r', seq!['%', '0', 'D']);
        let f3 = replacer('\n', seq!['%', '0', 'A']);
        assert(s =~= p + seq![x]);
        lemma_data_escape_is_ordered_substitution(p);
        lemma_char_map_concat(p, seq![x], f1);
        let r1p = replace_char(p, '%', seq!['%', '2', '5']);
        let r1x = replace_char(seq![x], '%', seq!['%', '2', '5']);
        lemma_char_map_concat(r1p, r1x, f2);
        let r2p = replace_char(r1p, '\r', seq!['%', '0', 'D']);
        let r2x = replace_char(r1x, '\r', seq!['%', '0', 'D']);
        lemma_char_map_concat(r2p, r2x, f3);
        lemma_data_substitutions_single(x);
        lemma_char_map_concat(p, seq![x], |c: char| data_char_escape(c));
        lemma_char_map_single(x, |c: char| data_char_escape(c));
    }
}

/// Property escaping is the data escaping followed by `:` to `%3A` and then
/// `,` to `%2C` as whole-text substitutions: the colons and commas escaped are
/// the value's own, and the `%` of every code stays as written.
pub proof fn lemma_property_escape_is_ordered_substitution(s: Seq<char>)
    ensures
        escaped_property(s) == property_substitutions(s),
    decreases s.len(),
{
    if s.len() > 0 {
        let p = s.drop_last();
        let x = s.last();
        let c3a = seq!['%', '3', 'A'];
        let c2c = seq!['%', '2', 'C'];
        let g1 = replacer(':', c3a);
        let g2 = replacer(',', c2c);
        assert(s =~= p + seq![x]);
        lemma_property_escape_is_ordered_substitution(p);
        lemma_data_escape_is_ordered_substitution(s);
        lemma_data_escape_is_ordered_substitution(p);
        let fd = |c: char| data_char_escape(c);
        lemma_char_map_concat(p, seq![x], fd);
        lemma_char_map_single(x, fd);
        let dp = escaped_data(p);
        let dx = data_char_escape(x);
        lemma_char_map_concat(dp, dx, g1);
        let r1p = replace_char(dp, ':', c3a);
        let r1x = replace_char(dx, ':', c3a);
        lemma_char_map_concat(r1p, r1x, g2);
        if x == ':' {
            lemma_char_map_single(x, g1);
            lemma_replace_absent(c3a, ',', c2c);
        } else if x == ',' {
            lemma_replace_absent(dx, ':', c3a);
            lemma_char_map_single(x, g2);
        } else {
            assert(forall|i: int| 0 <= i < dx.len() ==> dx[i] != ':' && dx[i] != ',');
            lemma_replace_absent(dx, ':', c3a);
            lemma_replace_absent(dx, ',', c2c);
        }
        let fp = |c: char| property_char_escape(c);
        lemma_char_map_concat(p, seq![x], fp);
        lemma_char_map_single(x, fp);
    }
}

/// An escaped property value holds no `:` and no `,`, the separators of the
/// property block, and no line break.
pub proof fn lemma_property_escape_has_no_separator(s: Seq<char>)
    ensures
        forall|i: int|
            0 <= i < escaped_property(s).len() ==> {
                let c = #[trigger] escaped_property(s)[i];
                c != ':' && c != ',' && c != '\n' && c != '\r'
            },
    decreases s.len(),
{
    if s.len() > 0 {
        let p = s.drop_last();
        let x = s.last();
        lemma_property_escape_has_no_separator(p);
        let f = |c: char| property_char_escape(c);
        assert(s =~= p + seq![x]);
        lemma_char_map_concat(p, seq![x], f);
        lemma_char_map_single(x, f);
        let e = property_char_escape(x);
        assert forall|i: int| 0 <= i < escaped_property(s).len() implies {
            let c = #[trigger] escaped_property(s)[i];
            c != ':' && c != ',' && c != '\n' && c != '\r'
        } by {
            let ep = escaped_property(p);
            if i >= ep.len() {
                assert(escaped_property(s)[i] == e[i - ep.len()]);
            } else {
                assert(escaped_property(s)[i] == ep[i]);
            }
        }
    }
}

/// Relies on `String::push`: appends one character.
#[verifier::external_body]
pub(crate) fn push_char(out: &mut String, c: char)
    ensures
        final(out)@ == old(out)@.push(c),
{
    out.push(c)
}

/// Appends the data-escaped form of `c` to `out`.
fn push_data_escaped(out: &mut String, c: char)
    ensures
        final(out)@ == old(out)@ + data_char_escape(c),
{
    if c == '%' {
        push_char(out, '%');
        push_char(out, '2');
        push_char(out, '5');
    } else if c == '\r' {
        push_char(out, '%');
        push_char(out, '0');
        push_char(out, 'D');
    } else if c == '\n' {
        push_char(out, '%');
        push_char(out, '0');
        push_char(out, 'A');
    } else {
        push_char(out, c);
    }
    assert(final(out)@ =~= old(out)@ + data_char_escape(c));
}

/// Escapes a message: `%` becomes `%25`, carriage return `%0D` and line
/// feed `%0A`; every other character stays as it is.
pub fn escape_data(s: &str) -> (r: String)
    ensures
        r@ == escaped_data(s@),
{
    let mut out = String::new();
    for c in it: s.chars()
        invariant
            it.seq() == s@,
            out@ == escaped_data(s@.take(it.index())),
    {
        proof {
            assert(s@.take(it.index() + 1).drop_last() =~= s@.take(it.index()));
        }
        push_data_escaped(&mut out, c);
    }
    proof {
        assert(s@.take(s@.len() as int) =~= s@);
    }
    out
}

/// Appends the property-escaped form of `c` to `out`.
fn push_property_escaped(out: &mut String, c: char)
    ensures
        final(out)@ == old(out)@ + property_char_escape(c),
{
    if c == ':' {
        push_char(out, '%');
        push_char(out, '3');
        push_char(out, 'A');
    } else if c == ',' {
        push_char(out, '%');
        push_char(out, '2');
        push_char(out, 'C');
    } else {
        push_data_escaped(out, c);
    }
    assert(final(out)@ =~= old(out)@ + property_char_escape(c));
}

/// Escapes a property value: the data escaping, and besides `:` becomes
/// `%3A` and `,` becomes `%2C`.
pub fn escape_property(s: &str) -> (r: String)
    ensures
        r@ == escaped_property(s@),
{
    let mut out = String::new();
    for c in it: s.chars()
        invariant
            it.seq() == s@,
            out@ == escaped_property(s@.take(it.index())),
    {
        proof {
            assert(s@.take(it.index() + 1).drop_last() =~= s@.take(it.index()));
        }
        push_property_escaped(&mut out, c);
    }
    proof {
        assert(s@.take(s@.len() as int) =~= s@);
    }
    out
}

} // verus!
