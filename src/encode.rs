//! Serialization of a command, its properties and its message into one line.
use vstd::prelude::*;
use crate::escape::{
    escape_data, escape_property, escaped_data, escaped_property, push_char, data_char_escape,
    property_char_escape,
};

verus! {

/// A property as the contracts see it: key and value as text.
pub type PropertyView = (Seq<char>, Seq<char>);

/// The properties of a vector of key/value pairs, in order.
pub open spec fn property_views(ps: Seq<(String, String)>) -> Seq<PropertyView> {
    ps.map_values(|p: (String, String)| (p.0@, p.1@))
}

/// `key=value`, the value property-escaped and the key as given.
pub open spec fn property_text(p: PropertyView) -> Seq<char> {
    p.0 + seq!['='] + escaped_property(p.1)
}

/// The properties written one after the other, separated by commas.
pub open spec fn joined_properties(ps: Seq<PropertyView>) -> Seq<char>
    decreases ps.len(),
{
    if ps.len() == 0 {
        Seq::empty()
    } else if ps.len() == 1 {
        property_text(ps[0])
    } else {
        joined_properties(ps.drop_last()) + seq![','] + property_text(ps.last())
    }
}

/// The wire line `::command[ k1=v1,k2=v2,...]::message`; the space and the
/// property block appear only when there are properties.
pub open spec fn encoded_line(command: Seq<char>, message: Seq<char>, ps: Seq<PropertyView>) -> Seq<char> {
    seq![':', ':'] + command + (if ps.len() == 0 {
        Seq::empty()
    } else {
        seq![' '] + joined_properties(ps)
    }) + seq![':', ':'] + escaped_data(message)
}

/// Whether `s` holds neither a line feed nor a carriage return.
pub open spec fn no_line_break(s: Seq<char>) -> bool {
    forall|i: int| 0 <= i < s.len() ==> s[i] != '\n' && s[i] != '\r'
}

proof fn lemma_no_line_break_concat(a: Seq<char>, b: Seq<char>)
    requires
        no_line_break(a),
        no_line_break(b),
    ensures
        no_line_break(a + b),
{
    assert forall|i: int| 0 <= i < (a + b).len() implies (a + b)[i] != '\n' && (a + b)[i] != '\r' by {
        if i >= a.len() {
            assert((a + b)[i] == b[i - a.len()]);
        }
    }
}

proof fn lemma_escaped_no_line_break(s: Seq<char>)
    ensures
        no_line_break(escaped_data(s)),
        no_line_break(escaped_property(s)),
    decreases s.len(),
{
    if s.len() > 0 {
        lemma_escaped_no_line_break(s.drop_last());
        let x = s.last();
        assert(no_line_break(data_char_escape(x)));
        assert(no_line_break(property_char_escape(x)));
        lemma_no_line_break_concat(escaped_data(s.drop_last()), data_char_escape(x));
        lemma_no_line_break_concat(escaped_property(s.drop_last()), property_char_escape(x));
    }
}

proof fn lemma_joined_no_line_break(ps: Seq<PropertyView>)
    requires
        forall|i: int| 0 <= i < ps.len() ==> no_line_break(#[trigger] ps[i].0),
    ensures
        no_line_break(joined_properties(ps)),
    decreases ps.len(),
{
    if ps.len() > 0 {
        let last = ps.last();
        assert(no_line_break(last.0));
        lemma_escaped_no_line_break(last.1);
        lemma_no_line_break_concat(last.0, seq!['=']);
        lemma_no_line_break_concat(last.0 + seq!['='], escaped_property(last.1));
        if ps.len() > 1 {
            let init = ps.drop_last();
            assert(forall|i: int| 0 <= i < init.len() ==> #[trigger] init[i].0 == ps[i].0);
            lemma_joined_no_line_break(init);
            lemma_no_line_break_concat(joined_properties(init), seq![',']);
            lemma_no_line_break_concat(joined_properties(init) + seq![','], property_text(last));
        }
    }
}

/// A command line is one line: when neither the command name nor any key
/// holds a line break, the encoded line holds none, whatever the message and
/// the property values.
pub proof fn lemma_encoded_line_is_one_line(command: Seq<char>, message: Seq<char>, ps: Seq<PropertyView>)
    requires
        no_line_break(command),
        forall|i: int| 0 <= i < ps.len() ==> no_line_break(#[trigger] ps[i].0),
    ensures
        no_line_break(encoded_line(command, message, ps)),
{
    let block = if ps.len() == 0 {
        Seq::<char>::empty()
    } else {
        seq![' '] + joined_properties(ps)
    };
    lemma_joined_no_line_break(ps);
    lemma_no_line_break_concat(seq![' '], joined_properties(ps));
    lemma_escaped_no_line_break(message);
    lemma_no_line_break_concat(seq![':', ':'], command);
    lemma_no_line_break_concat(seq![':', ':'] + command, block);
    lemma_no_line_break_concat(seq![':', ':'] + command + block, seq![':', ':']);
    lemma_no_line_break_concat(seq![':', ':'] + command + block + seq![':', ':'], escaped_data(message));
}

/// Appends the characters of `s` to `out`.
pub(crate) fn push_str(out: &mut String, s: &str)
    ensures
        final(out)@ == old(out)@ + s@,
{
    for c in it: s.chars()
        invariant
            it.seq() == s@,
            out@ == old(out)@ + s@.take(it.index()),
    {
        proof {
            assert(s@.take(it.index() + 1) =~= s@.take(it.index()).push(c));
        }
        push_char(out, c);
    }
    proof {
        assert(s@.take(s@.len() as int) =~= s@);
    }
}

/// Builds the line for `command` with `message` and `properties`: the
/// message is data-escaped, each property value property-escaped, the keys
/// written as given and the properties kept in their order.
pub fn issue_command(command: &str, message: &str, properties: Vec<(String, String)>) -> (r: String)
    ensures
        r@ == encoded_line(command@, message@, property_views(properties@)),
{
    let ghost views = property_views(properties@);
    let mut out = String::new();
    push_char(&mut out, ':');
    push_char(&mut out, ':');
    push_str(&mut out, command);
    let ghost head = out@;
    if properties.len() > 0 {
        push_char(&mut out, ' ');
        let ghost head_sp = out@;
        let mut i: usize = 0;
        while i < properties.len()
            invariant
                i <= properties.len(),
                views == property_views(properties@),
                head_sp == head + seq![' '],
                out@ == head_sp + joined_properties(views.take(i as int)),
            decreases properties.len() - i,
        {
            if i > 0 {
                push_char(&mut out, ',');
            }
            push_str(&mut out, properties[i].0.as_str());
            push_char(&mut out, '=');
            let value = escape_property(properties[i].1.as_str());
            push_str(&mut out, value.as_str());
            proof {
                let t = views.take(i as int + 1);
                assert(t.drop_last() =~= views.take(i as int));
                assert(t.last() == views[i as int]);
                if i == 0 {
                    assert(views.take(0) =~= Seq::<PropertyView>::empty());
                }
            }
            i = i + 1;
        }
        proof {
            assert(views.take(i as int) =~= views);
        }
    }
    push_char(&mut out, ':');
    push_char(&mut out, ':');
    let escaped = escape_data(message);
    push_str(&mut out, escaped.as_str());
    proof {
        assert(out@ =~= encoded_line(command@, message@, views));
    }
    out
}

/// Builds the line for `command` with `message` and no properties.
pub fn issue(command: &str, message: &str) -> (r: String)
    ensures
        r@ == encoded_line(command@, message@, Seq::empty()),
{
    let r = issue_command(command, message, Vec::new());
    proof {
        assert(property_views(Seq::<(String, String)>::empty()) =~= Seq::<PropertyView>::empty());
    }
    r
}

/// The ASCII digit for `d`, below ten.
pub open spec fn digit_char(d: nat) -> char {
    ((48 + d) as u8) as char
}

/// The decimal writing of `n`, with no sign and no leading zeros.
pub open spec fn decimal(n: nat) -> Seq<char>
    decreases n,
{
    if n < 10 {
        seq![digit_char(n)]
    } else {
        decimal(n / 10).push(digit_char(n % 10))
    }
}

/// Appends the decimal writing of `n` to `out`.
fn push_decimal(out: &mut String, n: u64)
    ensures
        final(out)@ == old(out)@ + decimal(n as nat),
    decreases n,
{
    if n >= 10 {
        push_decimal(out, n / 10);
    }
    let d: u8 = (n % 10) as u8;
    push_char(out, (48u8 + d) as char);
    proof {
        if n >= 10 {
            assert(old(out)@ + decimal(n as nat) =~= old(out)@ + decimal((n / 10) as nat) + seq![
                digit_char((n % 10) as nat),
            ]);
        }
    }
    assert(final(out)@ =~= old(out)@ + decimal(n as nat));
}

/// The decimal writing of `n` as a `String`.
pub fn decimal_string(n: u64) -> (r: String)
    ensures
        r@ == decimal(n as nat),
{
    let mut out = String::new();
    push_decimal(&mut out, n);
    assert(out@ =~= decimal(n as nat));
    out
}

/// The property for a present optional field, none for an absent one.
pub open spec fn optional_property(key: Seq<char>, value: Option<Seq<char>>) -> Seq<PropertyView> {
    match value {
        Some(v) => seq![(key, v)],
        None => Seq::empty(),
    }
}

/// The properties of a log message: `file`, `line` and `col`, in that order,
/// each only where it is given, the numbers in decimal.
pub open spec fn log_properties(file: Option<Seq<char>>, line: Option<u64>, col: Option<u64>) -> Seq<PropertyView> {
    optional_property(seq!['f', 'i', 'l', 'e'], file) + optional_property(
        seq!['l', 'i', 'n', 'e'],
        match line {
            Some(n) => Some(decimal(n as nat)),
            None => None,
        },
    ) + optional_property(
        seq!['c', 'o', 'l'],
        match col {
            Some(n) => Some(decimal(n as nat)),
            None => None,
        },
    )
}

/// The text of an optional `String`.
pub open spec fn opt_view(s: Option<String>) -> Option<Seq<char>> {
    match s {
        Some(v) => Some(v@),
        None => None,
    }
}

/// Builds a log line (debug, warning, error) for `command`, with the
/// location properties that are given.
pub fn log_command(
    command: &str,
    message: &str,
    file: Option<String>,
    line: Option<u64>,
    col: Option<u64>,
) -> (r: String)
    ensures
        r@ == encoded_line(command@, message@, log_properties(opt_view(file), line, col)),
{
    proof {
        reveal_strlit("file");
        reveal_strlit("line");
        reveal_strlit("col");
        assert("file"@ =~= seq!['f', 'i', 'l', 'e']);
        assert("line"@ =~= seq!['l', 'i', 'n', 'e']);
        assert("col"@ =~= seq!['c', 'o', 'l']);
    }
    let ghost file_view = opt_view(file);
    let ghost line_text = match line {
        Some(n) => Some(decimal(n as nat)),
        None => None::<Seq<char>>,
    };
    let ghost col_text = match col {
        Some(n) => Some(decimal(n as nat)),
        None => None::<Seq<char>>,
    };
    let mut params: Vec<(String, String)> = Vec::new();
    if let Some(f) = file {
        params.push((String::from_str("file"), f));
    }
    assert(property_views(params@) =~= optional_property(seq!['f', 'i', 'l', 'e'], file_view));
    let ghost after_file = params@;
    if let Some(n) = line {
        params.push((String::from_str("line"), decimal_string(n)));
    }
    assert(property_views(params@) =~= property_views(after_file) + optional_property(
        seq!['l', 'i', 'n', 'e'],
        line_text,
    ));
    let ghost after_line = params@;
    if let Some(n) = col {
        params.push((String::from_str("col"), decimal_string(n)));
    }
    assert(property_views(params@) =~= property_views(after_line) + optional_property(
        seq!['c', 'o', 'l'],
        col_text,
    ));
    issue_command(command, message, params)
}

} // verus!
