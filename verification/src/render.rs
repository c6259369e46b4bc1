//! Serialization of the document model back to JSON text, in compact form:
//! no whitespace, strings escaped, numbers emitted as their literals.
use vstd::prelude::*;
use vstd::string::StrSliceExecFns;
use vstd::string::StringExecFns;
use crate::json::{group_jv_lemmas, jv_entries, jv_list, JVal, JsonNode};

verus! {

broadcast use vstd::seq::axiom_seq_index_decreases, vstd::seq::axiom_seq_subrange_decreases, vstd::std_specs::vec::axiom_vec_index_decreases, vstd::std_specs::vec::axiom_vec_decreases_to_view;

/// One hexadecimal digit, lower case.
pub open spec fn hex_char(d: int) -> char {
    if d < 10 {
        crate::patterns::digit_char(d)
    } else if d == 10 {
        'a'
    } else if d == 11 {
        'b'
    } else if d == 12 {
        'c'
    } else if d == 13 {
        'd'
    } else if d == 14 {
        'e'
    } else {
        'f'
    }
}

/// How one character appears inside a JSON string: quotes and backslashes
/// escaped, the named control characters short-escaped, other control
/// characters as a four-digit escape, everything else as itself.
pub open spec fn escape_char(c: char) -> Seq<char> {
    if c == '"' {
        "\\\""@
    } else if c == '\\' {
        "\\\\"@
    } else if c == '\u{8}' {
        "\\b"@
    } else if c == '\u{c}' {
        "\\f"@
    } else if c == '\n' {
        "\\n"@
    } else if c == '\r' {
        "\\r"@
    } else if c == '\t' {
        "\\t"@
    } else if (c as u32) < 32 {
        "\\u00"@ + seq![hex_char((c as u32) as int / 16), hex_char((c as u32) as int % 16)]
    } else {
        seq![c]
    }
}

pub open spec fn escape_seq(s: Seq<char>) -> Seq<char>
    decreases s.len(),
{
    if s.len() == 0 {
        Seq::empty()
    } else {
        escape_char(s[0]) + escape_seq(s.drop_first())
    }
}

/// A whole string value, quoted and escaped.
pub open spec fn render_string(s: Seq<char>) -> Seq<char> {
    "\""@ + escape_seq(s) + "\""@
}

/// The text of a value.
pub open spec fn render(v: JVal) -> Seq<char>
    decreases v,
{
    match v {
        JVal::Null => "null"@,
        JVal::Bool(b) => if b {
            "true"@
        } else {
            "false"@
        },
        JVal::Num(s) => s,
        JVal::Str(s) => render_string(s),
        JVal::Arr(items) => "["@ + render_items(items) + "]"@,
        JVal::Obj(entries) => "{"@ + render_entries(entries) + "}"@,
    }
}

pub open spec fn render_items(s: Seq<JVal>) -> Seq<char>
    decreases s,
{
    if s.len() == 0 {
        Seq::empty()
    } else if s.len() == 1 {
        render(s[0])
    } else {
        render(s[0]) + ","@ + render_items(s.drop_first())
    }
}

pub open spec fn render_entries(s: Seq<(Seq<char>, JVal)>) -> Seq<char>
    decreases s,
{
    if s.len() == 0 {
        Seq::empty()
    } else if s.len() == 1 {
        render_string(s[0].0) + ":"@ + render(s[0].1)
    } else {
        render_string(s[0].0) + ":"@ + render(s[0].1) + ","@ + render_entries(s.drop_first())
    }
}

proof fn lemma_escape_snoc(s: Seq<char>, c: char)
    ensures
        escape_seq(s.push(c)) == escape_seq(s) + escape_char(c),
    decreases s.len(),
{
    if s.len() == 0 {
        assert(s.push(c).drop_first() =~= s);
        assert(s.push(c)[0] == c);
        assert(escape_seq(s) =~= Seq::<char>::empty());
        assert(escape_seq(s.push(c)) =~= escape_seq(s) + escape_char(c));
    } else {
        assert(s.push(c).drop_first() =~= s.drop_first().push(c));
        lemma_escape_snoc(s.drop_first(), c);
        assert(s.push(c)[0] == s[0]);
        assert(escape_seq(s.push(c)) == escape_char(s[0]) + (escape_seq(s.drop_first())
            + escape_char(c)));
        assert(escape_seq(s) == escape_char(s[0]) + escape_seq(s.drop_first()));
        assert(escape_seq(s.push(c)) =~= escape_seq(s) + escape_char(c));
    }
}

proof fn lemma_render_items_snoc(s: Seq<JVal>, x: JVal)
    ensures
        render_items(s.push(x)) == if s.len() == 0 {
            render(x)
        } else {
            render_items(s) + ","@ + render(x)
        },
    decreases s.len(),
{
    if s.len() == 0 {
        assert(s.push(x)[0] == x);
        assert(render_items(s.push(x)) == render(x));
    } else {
        assert(s.push(x).drop_first() =~= s.drop_first().push(x));
        lemma_render_items_snoc(s.drop_first(), x);
        assert(s.push(x)[0] == s[0]);
        if s.len() == 1 {
            assert(s.drop_first().len() == 0);
            assert(render_items(s.push(x)) == render(s[0]) + ","@ + render(x));
            assert(render_items(s) == render(s[0]));
            assert(render_items(s.push(x)) =~= render_items(s) + ","@ + render(x));
        } else {
            assert(render_items(s.push(x)) == render(s[0]) + ","@ + (render_items(s.drop_first())
                + ","@ + render(x)));
            assert(render_items(s) == render(s[0]) + ","@ + render_items(s.drop_first()));
            assert(render_items(s.push(x)) =~= render_items(s) + ","@ + render(x));
        }
    }
}

proof fn lemma_render_entries_snoc(s: Seq<(Seq<char>, JVal)>, x: (Seq<char>, JVal))
    ensures
        render_entries(s.push(x)) == if s.len() == 0 {
            render_string(x.0) + ":"@ + render(x.1)
        } else {
            render_entries(s) + ","@ + (render_string(x.0) + ":"@ + render(x.1))
        },
    decreases s.len(),
{
    if s.len() == 0 {
        assert(s.push(x)[0] == x);
        assert(render_entries(s.push(x)) == render_string(x.0) + ":"@ + render(x.1));
    } else {
        assert(s.push(x).drop_first() =~= s.drop_first().push(x));
        lemma_render_entries_snoc(s.drop_first(), x);
        assert(s.push(x)[0] == s[0]);
        if s.len() == 1 {
            assert(s.drop_first().len() == 0);
            assert(render_entries(s.push(x)) =~= render_entries(s) + ","@ + (render_string(x.0)
                + ":"@ + render(x.1)));
        } else {
            assert(render_entries(s.push(x)) =~= render_entries(s) + ","@ + (render_string(x.0)
                + ":"@ + render(x.1)));
        }
    }
}

/// Append one character.
///
/// Relies on `String::push` of std: it appends the given character to the
/// end of the string.
#[verifier::external_body]
fn push_char(out: &mut String, c: char)
    ensures
        final(out)@ == old(out)@.push(c),
{
    out.push(c);
}

/// One hexadecimal digit as a string slice.
fn hex_str(d: u32) -> (r: &'static str)
    requires
        d < 16,
    ensures
        r@ == seq![hex_char(d as int)],
{
    proof {
        reveal_strlit("0");
        reveal_strlit("1");
        reveal_strlit("2");
        reveal_strlit("3");
        reveal_strlit("4");
        reveal_strlit("5");
        reveal_strlit("6");
        reveal_strlit("7");
        reveal_strlit("8");
        reveal_strlit("9");
        reveal_strlit("a");
        reveal_strlit("b");
        reveal_strlit("c");
        reveal_strlit("d");
        reveal_strlit("e");
        reveal_strlit("f");
    }
    if d == 0 {
        "0"
    } else if d == 1 {
        "1"
    } else if d == 2 {
        "2"
    } else if d == 3 {
        "3"
    } else if d == 4 {
        "4"
    } else if d == 5 {
        "5"
    } else if d == 6 {
        "6"
    } else if d == 7 {
        "7"
    } else if d == 8 {
        "8"
    } else if d == 9 {
        "9"
    } else if d == 10 {
        "a"
    } else if d == 11 {
        "b"
    } else if d == 12 {
        "c"
    } else if d == 13 {
        "d"
    } else if d == 14 {
        "e"
    } else {
        "f"
    }
}

/// Append one string value, quoted and escaped.
#[verifier::loop_isolation(false)]
fn render_str_value(s: &String, out: &mut String)
    ensures
        final(out)@ == old(out)@ + render_string(s@),
{
    out.append("\"");
    let slice = s.as_str();
    let n = slice.unicode_len();
    let mut i: usize = 0;
    proof {
        assert(s@.take(0) =~= Seq::<char>::empty());
        assert(out@ =~= old(out)@ + "\""@ + escape_seq(s@.take(0)));
    }
    while i < n
        invariant
            0 <= i <= n,
            n == s@.len(),
            out@ == old(out)@ + "\""@ + escape_seq(s@.take(i as int)),
        decreases n - i,
    {
        let ghost pre = out@;
        let c = slice.get_char(i);
        proof {
            assert(s@.take(i as int + 1) =~= s@.take(i as int).push(c));
            lemma_escape_snoc(s@.take(i as int), c);
        }
        if c == '"' {
            out.append("\\\"");
        } else if c == '\\' {
            out.append("\\\\");
        } else if c == '\u{8}' {
            out.append("\\b");
        } else if c == '\u{c}' {
            out.append("\\f");
        } else if c == '\n' {
            out.append("\\n");
        } else if c == '\r' {
            out.append("\\r");
        } else if c == '\t' {
            out.append("\\t");
        } else if (c as u32) < 32 {
            out.append("\\u00");
            let code = c as u32;
            out.append(hex_str(code / 16));
            out.append(hex_str(code % 16));
            proof {
                assert(out@ =~= pre + escape_char(c));
            }
        } else {
            push_char(out, c);
            proof {
                assert(out@ =~= pre + escape_char(c));
            }
        }
        proof {
            assert(out@ =~= old(out)@ + "\""@ + escape_seq(s@.take(i as int + 1)));
        }
        i = i + 1;
    }
    proof {
        assert(s@.take(n as int) =~= s@);
    }
    out.append("\"");
    proof {
        assert(out@ =~= old(out)@ + render_string(s@));
    }
}

/// Append the text of one node.
#[verifier::loop_isolation(false)]
#[verifier::rlimit(100)]
pub fn render_node(n: &JsonNode, out: &mut String)
    ensures
        final(out)@ == old(out)@ + render(n.jv()),
    decreases n,
{
    broadcast use group_jv_lemmas;

    match n {
        JsonNode::Null => {
            out.append("null");
        },
        JsonNode::Bool(b) => {
            if *b {
                out.append("true");
            } else {
                out.append("false");
            }
        },
        JsonNode::Num(s) => {
            out.append(s.as_str());
        },
        JsonNode::Str(s) => {
            render_str_value(s, out);
        },
        JsonNode::Arr(items) => {
            let ghost jvl = jv_list(items@);
            out.append("[");
            let m = items.len();
            let mut i: usize = 0;
            while i < m
                invariant
                    0 <= i <= m,
                    i == 0 ==> out@ == old(out)@ + "["@,
                    i > 0 ==> out@ == old(out)@ + "["@ + render_items(jvl.take(i as int)),
                decreases m - i,
            {
                let ghost pre = out@;
                if i > 0 {
                    out.append(",");
                }
                render_node(&items[i], out);
                proof {
                    assert(jvl.take(i as int + 1) =~= jvl.take(i as int).push(jvl[i as int]));
                    lemma_render_items_snoc(jvl.take(i as int), jvl[i as int]);
                    if i == 0 {
                        assert(out@ =~= old(out)@ + "["@ + render_items(jvl.take(1)));
                    } else {
                        assert(out@ =~= old(out)@ + "["@ + render_items(jvl.take(i as int + 1)));
                    }
                }
                i = i + 1;
            }
            out.append("]");
            proof {
                if m == 0 {
                    assert(render_items(jvl) =~= Seq::<char>::empty());
                    assert(out@ =~= old(out)@ + render(n.jv()));
                } else {
                    assert(jvl.take(m as int) =~= jvl);
                    assert(out@ =~= old(out)@ + render(n.jv()));
                }
            }
        },
        JsonNode::Obj(entries) => {
            let ghost jve = jv_entries(entries@);
            out.append("{");
            let m = entries.len();
            let mut i: usize = 0;
            while i < m
                invariant
                    0 <= i <= m,
                    i == 0 ==> out@ == old(out)@ + "{"@,
                    i > 0 ==> out@ == old(out)@ + "{"@ + render_entries(jve.take(i as int)),
                decreases m - i,
            {
                let ghost pre = out@;
                if i > 0 {
                    out.append(",");
                }
                render_str_value(&entries[i].0, out);
                out.append(":");
                render_node(&entries[i].1, out);
                proof {
                    crate::json::lemma_jv_entries_index(entries@, i as int);
                    assert(jve.take(i as int + 1) =~= jve.take(i as int).push(jve[i as int]));
                    lemma_render_entries_snoc(jve.take(i as int), jve[i as int]);
                    if i == 0 {
                        assert(out@ =~= old(out)@ + "{"@ + render_entries(jve.take(1)));
                    } else {
                        assert(out@ =~= old(out)@ + "{"@ + render_entries(jve.take(i as int + 1)));
                    }
                }
                i = i + 1;
            }
            out.append("}");
            proof {
                if m == 0 {
                    assert(render_entries(jve) =~= Seq::<char>::empty());
                    assert(out@ =~= old(out)@ + render(n.jv()));
                } else {
                    assert(jve.take(m as int) =~= jve);
                    assert(out@ =~= old(out)@ + render(n.jv()));
                }
            }
        },
    }
}

/// The whole document as compact JSON text.
pub fn render_document(doc: &JsonNode) -> (s: String)
    ensures
        s@ == render(doc.jv()),
{
    let mut out = String::new();
    render_node(doc, &mut out);
    proof {
        assert(out@ =~= render(doc.jv()));
    }
    out
}

} // verus!
