//! The wire serialization of finished queries: a query serializes as an
//! object with a `query` string field, a `bindVars` object field when the
//! parameter table is non-empty, and a `batchSize` integer field when one
//! is set.

use vstd::prelude::*;
use vstd::string::*;
use crate::bind_vars::BindVars;
use crate::query::ArangoQuery;
use crate::text::dec_chars;
use crate::value::{jprops_of, jval_of, jvals_of, lemma_jprops_of, lemma_jvals_of, JVal, JsonValue};

verus! {

broadcast use vstd::std_specs::vec::axiom_vec_index_decreases;

/// The lowercase hexadecimal digit character for a value below sixteen.
pub open spec fn hex_digit(d: nat) -> char {
    if d < 10 {
        crate::text::dec_digit(d)
    } else if d == 10 {
        'a'
    } else if d == 11 {
        'b'
    } else if d == 12 {
        'c'
    } else if d == 13 {
        'd'
    } else if d == 14 {
        'e'
    } else {
        'f'
    }
}

/// How one character is written inside a string literal: quote and
/// backslash are escaped, the named control characters take their short
/// escapes, other control characters are written as a four-digit escape,
/// and everything else stands as itself.
pub open spec fn esc_char(c: char) -> Seq<char> {
    if c == '"' {
        seq!['\\', '"']
    } else if c == '\\' {
        seq!['\\', '\\']
    } else if c == '\u{08}' {
        seq!['\\', 'b']
    } else if c == '\u{09}' {
        seq!['\\', 't']
    } else if c == '\u{0A}' {
        seq!['\\', 'n']
    } else if c == '\u{0C}' {
        seq!['\\', 'f']
    } else if c == '\u{0D}' {
        seq!['\\', 'r']
    } else if (c as int) < 0x20 {
        seq!['\\', 'u', '0', '0', hex_digit(((c as int) / 16) as nat), hex_digit(
            ((c as int) % 16) as nat,
        )]
    } else {
        seq![c]
    }
}

/// A character sequence written with every character escaped as needed.
pub open spec fn esc_chars(s: Seq<char>) -> Seq<char>
    decreases s.len(),
{
    if s.len() == 0 {
        Seq::empty()
    } else {
        esc_char(s[0]) + esc_chars(s.drop_first())
    }
}

/// Escaping one more character appends its escape.
pub proof fn lemma_esc_chars_push(s: Seq<char>, c: char)
    ensures
        esc_chars(s.push(c)) == esc_chars(s) + esc_char(c),
    decreases s.len(),
{
    if s.len() == 0 {
        assert(s.push(c).drop_first() =~= Seq::<char>::empty());
        assert(s.push(c)[0] == c);
        assert(s.push(c).len() == 1);
        assert(esc_chars(s.push(c)) == esc_char(c) + esc_chars(Seq::<char>::empty()));
        assert(esc_chars(Seq::<char>::empty()) == Seq::<char>::empty());
        assert(esc_chars(s) == Seq::<char>::empty());
        assert(esc_char(c) + Seq::<char>::empty() =~= Seq::<char>::empty() + esc_char(c));
    } else {
        assert(s.push(c).drop_first() =~= s.drop_first().push(c));
        assert(s.push(c)[0] == s[0]);
        lemma_esc_chars_push(s.drop_first(), c);
        assert(esc_chars(s.push(c)) =~= esc_chars(s) + esc_char(c));
    }
}

/// Whether a character stands as itself inside a string literal.
pub open spec fn is_plain(c: char) -> bool {
    c != '"' && c != '\\' && (c as int) >= 0x20
}

/// Every lowercase letter, uppercase letter and digit is plain.
pub proof fn lemma_plain_choices(c: char)
    ensures
        ('a' <= c <= 'z' || 'A' <= c <= 'Z' || '0' <= c <= '9') ==> is_plain(c),
{
}

/// Text of plain characters is written unchanged.
pub proof fn lemma_esc_plain(s: Seq<char>)
    requires
        forall|i: int| 0 <= i < s.len() ==> is_plain(#[trigger] s[i]),
    ensures
        esc_chars(s) == s,
    decreases s.len(),
{
    if s.len() > 0 {
        lemma_esc_plain(s.drop_first());
        assert(esc_char(s[0]) == seq![s[0]]);
        assert(esc_chars(s) =~= s);
    } else {
        assert(esc_chars(s) =~= s);
    }
}

/// A string literal: escaped content between double quotes.
pub open spec fn quoted(s: Seq<char>) -> Seq<char> {
    seq!['"'] + esc_chars(s) + seq!['"']
}

/// The decimal rendering of an integer, with a sign when negative.
pub open spec fn int_chars(n: int) -> Seq<char> {
    if n < 0 {
        seq!['-'] + dec_chars((-n) as nat)
    } else {
        dec_chars(n as nat)
    }
}

/// The wire text of one value.
pub open spec fn json_chars(v: JVal) -> Seq<char>
    decreases v,
{
    match v {
        JVal::Null => "null"@,
        JVal::Bool(b) => if b {
            "true"@
        } else {
            "false"@
        },
        JVal::Int(n) => int_chars(n),
        JVal::Str(s) => quoted(s),
        JVal::Arr(es) => seq!['['] + arr_items_chars(es) + seq![']'],
        JVal::Obj(ps) => seq!['{'] + obj_items_chars(ps) + seq!['}'],
    }
}

/// The comma-separated items of an array.
pub open spec fn arr_items_chars(es: Seq<JVal>) -> Seq<char>
    decreases es,
{
    if es.len() == 0 {
        Seq::empty()
    } else if es.len() == 1 {
        json_chars(es[0])
    } else {
        json_chars(es[0]) + seq![','] + arr_items_chars(es.drop_first())
    }
}

/// The comma-separated `"name":value` items of an object.
pub open spec fn obj_items_chars(ps: Seq<(Seq<char>, JVal)>) -> Seq<char>
    decreases ps,
{
    if ps.len() == 0 {
        Seq::empty()
    } else if ps.len() == 1 {
        quoted(ps[0].0) + seq![':'] + json_chars(ps[0].1)
    } else {
        quoted(ps[0].0) + seq![':'] + json_chars(ps[0].1) + seq![','] + obj_items_chars(
            ps.drop_first(),
        )
    }
}

/// One more array item is appended after a comma (or alone when first).
pub proof fn lemma_arr_items_push(es: Seq<JVal>, x: JVal)
    ensures
        arr_items_chars(es.push(x)) == if es.len() == 0 {
            json_chars(x)
        } else {
            arr_items_chars(es) + seq![','] + json_chars(x)
        },
    decreases es.len(),
{
    if es.len() == 0 {
        assert(es.push(x)[0] == x);
        assert(arr_items_chars(es.push(x)) =~= json_chars(x));
    } else {
        assert(es.push(x).drop_first() =~= es.drop_first().push(x));
        assert(es.push(x)[0] == es[0]);
        lemma_arr_items_push(es.drop_first(), x);
        if es.len() == 1 {
            assert(arr_items_chars(es.push(x)) =~= arr_items_chars(es) + seq![','] + json_chars(
                x,
            ));
        } else {
            assert(arr_items_chars(es.push(x)) =~= arr_items_chars(es) + seq![','] + json_chars(
                x,
            ));
        }
    }
}

/// One more object item is appended after a comma (or alone when first).
pub proof fn lemma_obj_items_push(ps: Seq<(Seq<char>, JVal)>, x: (Seq<char>, JVal))
    ensures
        obj_items_chars(ps.push(x)) == if ps.len() == 0 {
            quoted(x.0) + seq![':'] + json_chars(x.1)
        } else {
            obj_items_chars(ps) + seq![','] + quoted(x.0) + seq![':'] + json_chars(x.1)
        },
    decreases ps.len(),
{
    if ps.len() == 0 {
        assert(ps.push(x)[0] == x);
        assert(obj_items_chars(ps.push(x)) =~= quoted(x.0) + seq![':'] + json_chars(x.1));
    } else {
        assert(ps.push(x).drop_first() =~= ps.drop_first().push(x));
        assert(ps.push(x)[0] == ps[0]);
        lemma_obj_items_push(ps.drop_first(), x);
        assert(obj_items_chars(ps.push(x)) =~= obj_items_chars(ps) + seq![','] + quoted(x.0)
            + seq![':'] + json_chars(x.1));
    }
}

/// An object of one entry is written as that entry.
pub proof fn lemma_obj_items_single(p: (Seq<char>, JVal))
    ensures
        obj_items_chars(seq![p]) == quoted(p.0) + seq![':'] + json_chars(p.1),
{
    assert(seq![p].len() == 1);
    assert(seq![p][0] == p);
}

/// An object of two entries is written as the first, a comma, the second.
pub proof fn lemma_obj_items_pair(p: (Seq<char>, JVal), q: (Seq<char>, JVal))
    ensures
        obj_items_chars(seq![p, q]) == quoted(p.0) + seq![':'] + json_chars(p.1) + seq![',']
            + (quoted(q.0) + seq![':'] + json_chars(q.1)),
{
    assert(seq![p, q].drop_first() =~= seq![q]);
    lemma_obj_items_single(q);
    assert(seq![p, q][0] == p);
    assert(obj_items_chars(seq![p, q]) == quoted(p.0) + seq![':'] + json_chars(p.1) + seq![',']
        + obj_items_chars(seq![q]));
}

/// One-character string for a single lowercase hexadecimal digit.
fn hex_digit_string(d: u32) -> (s: &'static str)
    requires
        d < 16,
    ensures
        s@ == seq![hex_digit(d as nat)],
{
    proof {
        reveal_strlit("a");
        reveal_strlit("b");
        reveal_strlit("c");
        reveal_strlit("d");
        reveal_strlit("e");
        reveal_strlit("f");
    }
    if d < 10 {
        crate::text::digit_string(d as u64)
    } else {
        match d {
            10 => "a",
            11 => "b",
            12 => "c",
            13 => "d",
            14 => "e",
            _ => "f",
        }
    }
}

/// Appends the escaped, quoted form of `s`.
fn append_quoted(out: &mut String, s: &str)
    ensures
        final(out)@ == old(out)@ + quoted(s@),
{
    let ghost base = out@;
    out.append("\"");
    proof {
        reveal_strlit("\"");
        assert("\""@ =~= seq!['"']);
        assert(esc_chars(s@.subrange(0, 0)) =~= Seq::<char>::empty());
        assert(out@ =~= base + seq!['"'] + esc_chars(s@.subrange(0, 0)));
    }
    let len = s.unicode_len();
    let mut i: usize = 0;
    while i < len
        invariant
            i <= len,
            len == s@.len(),
            out@ == base + seq!['"'] + esc_chars(s@.subrange(0, i as int)),
        decreases len - i,
    {
        let c = s.get_char(i);
        if c == '"' {
            out.append("\\\"");
            proof {
                reveal_strlit("\\\"");
                assert("\\\""@ =~= esc_char('"'));
            }
        } else if c == '\\' {
            out.append("\\\\");
            proof {
                reveal_strlit("\\\\");
                assert("\\\\"@ =~= esc_char('\\'));
            }
        } else if c == '\u{08}' {
            out.append("\\b");
            proof {
                reveal_strlit("\\b");
                assert("\\b"@ =~= esc_char('\u{08}'));
            }
        } else if c == '\u{09}' {
            out.append("\\t");
            proof {
                reveal_strlit("\\t");
                assert("\\t"@ =~= esc_char('\u{09}'));
            }
        } else if c == '\u{0A}' {
            out.append("\\n");
            proof {
                reveal_strlit("\\n");
                assert("\\n"@ =~= esc_char('\u{0A}'));
            }
        } else if c == '\u{0C}' {
            out.append("\\f");
            proof {
                reveal_strlit("\\f");
                assert("\\f"@ =~= esc_char('\u{0C}'));
            }
        } else if c == '\u{0D}' {
            out.append("\\r");
            proof {
                reveal_strlit("\\r");
                assert("\\r"@ =~= esc_char('\u{0D}'));
            }
        } else if (c as u32) < 0x20 {
            out.append("\\u00");
            out.append(hex_digit_string((c as u32) / 16));
            out.append(hex_digit_string((c as u32) % 16));
            proof {
                reveal_strlit("\\u00");
                assert("\\u00"@ + seq![hex_digit(((c as u32) / 16) as nat)] + seq![
                    hex_digit(((c as u32) % 16) as nat),
                ] =~= esc_char(c));
            }
        } else {
            let piece = s.substring_char(i, i + 1);
            out.append(piece);
            proof {
                assert(piece@ =~= esc_char(c));
            }
        }
        proof {
            lemma_esc_chars_push(s@.subrange(0, i as int), c);
            assert(s@.subrange(0, i + 1) =~= s@.subrange(0, i as int).push(c));
            assert(out@ =~= base + seq!['"'] + esc_chars(s@.subrange(0, i + 1)));
        }
        i = i + 1;
    }
    proof {
        assert(s@.subrange(0, s@.len() as int) =~= s@);
    }
    out.append("\"");
    proof {
        reveal_strlit("\"");
        assert("\""@ =~= seq!['"']);
        assert(out@ =~= base + quoted(s@));
    }
}

/// The decimal rendering of a signed number, as `int_chars` describes.
pub fn i64_to_dec_string(n: i64) -> (s: String)
    ensures
        s@ == int_chars(n as int),
{
    if n >= 0 {
        crate::text::u64_to_dec_string(n as u64)
    } else {
        let magnitude: u64 = if n == i64::MIN {
            9223372036854775808u64
        } else {
            (-n) as u64
        };
        let mut s = String::from_str("-");
        let d = crate::text::u64_to_dec_string(magnitude);
        s.append(d.as_str());
        proof {
            reveal_strlit("-");
            assert("-"@ =~= seq!['-']);
        }
        s
    }
}

/// Appends the wire text of one value.
#[verifier::loop_isolation(false)]
#[verifier::rlimit(60)]
fn append_value(out: &mut String, v: &JsonValue)
    ensures
        final(out)@ == old(out)@ + json_chars(jval_of(*v)),
    decreases *v,
{
    let ghost base = out@;
    match v {
        JsonValue::Null => {
            out.append("null");
        },
        JsonValue::Bool(b) => {
            if *b {
                out.append("true");
            } else {
                out.append("false");
            }
        },
        JsonValue::Int(n) => {
            let d = i64_to_dec_string(*n);
            out.append(d.as_str());
        },
        JsonValue::UInt(u) => {
            let d = crate::text::u64_to_dec_string(*u);
            out.append(d.as_str());
        },
        JsonValue::Str(s) => {
            append_quoted(out, s.as_str());
        },
        JsonValue::Array(es) => {
            out.append("[");
            proof {
                reveal_strlit("[");
                assert("["@ =~= seq!['[']);
                lemma_jvals_of(es@);
                assert(jvals_of(es@).subrange(0, 0) =~= Seq::<JVal>::empty());
            }
            let ghost items = jvals_of(es@);
            let mut i: usize = 0;
            while i < es.len()
                invariant
                    i <= es.len(),
                    items == jvals_of(es@),
                    items.len() == es@.len(),
                    forall|j: int| 0 <= j < es@.len() ==> items[j] == jval_of(#[trigger] es@[j]),
                    out@ == base + seq!['['] + arr_items_chars(items.subrange(0, i as int)),
                decreases es.len() - i,
            {
                if i > 0 {
                    out.append(",");
                    proof {
                        reveal_strlit(",");
                        assert(","@ =~= seq![',']);
                    }
                }
                proof {
                    assert(decreases_to!(*v => v->Array_0));
                    assert(decreases_to!(v->Array_0 => v->Array_0@[i as int]));
                    assert(v->Array_0@[i as int] == es@[i as int]);
                    assert(decreases_to!(*v => es@[i as int]));
                }
                append_value(out, &es[i]);
                proof {
                    lemma_arr_items_push(items.subrange(0, i as int), items[i as int]);
                    assert(items.subrange(0, i + 1) =~= items.subrange(0, i as int).push(
                        items[i as int],
                    ));
                    assert(out@ =~= base + seq!['['] + arr_items_chars(
                        items.subrange(0, i + 1),
                    ));
                }
                i = i + 1;
            }
            proof {
                assert(items.subrange(0, es@.len() as int) =~= items);
            }
            out.append("]");
            proof {
                reveal_strlit("]");
                assert("]"@ =~= seq![']']);
                assert(out@ =~= base + json_chars(jval_of(*v)));
            }
        },
        JsonValue::Object(ps) => {
            out.append("{");
            proof {
                reveal_strlit("{");
                assert("{"@ =~= seq!['{']);
                lemma_jprops_of(ps@);
                assert(jprops_of(ps@).subrange(0, 0) =~= Seq::<(Seq<char>, JVal)>::empty());
            }
            let ghost items = jprops_of(ps@);
            let mut i: usize = 0;
            while i < ps.len()
                invariant
                    i <= ps.len(),
                    items == jprops_of(ps@),
                    items.len() == ps@.len(),
                    forall|j: int|
                        0 <= j < ps@.len() ==> items[j] == (
                            #[trigger] ps@[j].0@,
                            jval_of(ps@[j].1),
                        ),
                    out@ == base + seq!['{'] + obj_items_chars(items.subrange(0, i as int)),
                decreases ps.len() - i,
            {
                if i > 0 {
                    out.append(",");
                    proof {
                        reveal_strlit(",");
                        assert(","@ =~= seq![',']);
                    }
                }
                append_quoted(out, ps[i].0.as_str());
                out.append(":");
                proof {
                    reveal_strlit(":");
                    assert(":"@ =~= seq![':']);
                    assert(decreases_to!(*v => v->Object_0));
                    assert(decreases_to!(v->Object_0 => v->Object_0@[i as int]));
                    assert(decreases_to!(v->Object_0@[i as int] => v->Object_0@[i as int].1));
                    assert(v->Object_0@[i as int].1 == ps@[i as int].1);
                    assert(decreases_to!(*v => ps@[i as int].1));
                }
                append_value(out, &ps[i].1);
                proof {
                    lemma_obj_items_push(items.subrange(0, i as int), items[i as int]);
                    assert(items.subrange(0, i + 1) =~= items.subrange(0, i as int).push(
                        items[i as int],
                    ));
                    assert(out@ =~= base + seq!['{'] + obj_items_chars(
                        items.subrange(0, i + 1),
                    ));
                }
                i = i + 1;
            }
            proof {
                assert(items.subrange(0, ps@.len() as int) =~= items);
            }
            out.append("}");
            proof {
                reveal_strlit("}");
                assert("}"@ =~= seq!['}']);
                assert(out@ =~= base + json_chars(jval_of(*v)));
            }
        },
    }
}

/// The wire text of one value, on its own.
pub fn value_to_json_string(v: &JsonValue) -> (s: String)
    ensures
        s@ == json_chars(jval_of(*v)),
{
    let mut out = String::new();
    append_value(&mut out, v);
    proof {
        assert(out@ =~= json_chars(jval_of(*v)));
    }
    out
}

/// The wire text of a finished query with the given parts.
pub open spec fn wire_chars(
    text: Seq<char>,
    binds: Seq<(Seq<char>, JVal)>,
    batch: Option<usize>,
) -> Seq<char> {
    seq!['{'] + "\"query\":"@ + quoted(text) + (if binds.len() == 0 {
        Seq::<char>::empty()
    } else {
        ",\"bindVars\":"@ + seq!['{'] + obj_items_chars(binds) + seq!['}']
    }) + (match batch {
        None => Seq::<char>::empty(),
        Some(n) => ",\"batchSize\":"@ + dec_chars(n as nat),
    }) + seq!['}']
}

impl ArangoQuery {
    /// The query's wire serialization.
    pub fn to_json_string(&self) -> (s: String)
        ensures
            s@ == wire_chars(self.text(), self.binds(), self.batch()),
    {
        proof {
            self.lemma_view_parts();
        }
        let mut out = String::from_str("{");
        out.append("\"query\":");
        proof {
            reveal_strlit("{");
            assert("{"@ =~= seq!['{']);
        }
        append_quoted(&mut out, self.query.as_str());
        let entries = self.bind_vars.entries();
        let ghost items = self.binds();
        proof {
            lemma_jprops_of(entries@);
        }
        if entries.len() > 0 {
            out.append(",\"bindVars\":");
            out.append("{");
            proof {
                reveal_strlit("{");
                assert("{"@ =~= seq!['{']);
                assert(items.subrange(0, 0) =~= Seq::<(Seq<char>, JVal)>::empty());
            }
            let ghost mid = out@;
            let mut i: usize = 0;
            while i < entries.len()
                invariant
                    i <= entries.len(),
                    items == jprops_of(entries@),
                    items.len() == entries@.len(),
                    forall|j: int|
                        0 <= j < entries@.len() ==> items[j] == (
                            #[trigger] entries@[j].0@,
                            jval_of(entries@[j].1),
                        ),
                    out@ == mid + obj_items_chars(items.subrange(0, i as int)),
                decreases entries.len() - i,
            {
                if i > 0 {
                    out.append(",");
                    proof {
                        reveal_strlit(",");
                        assert(","@ =~= seq![',']);
                    }
                }
                append_quoted(&mut out, entries[i].0.as_str());
                out.append(":");
                proof {
                    reveal_strlit(":");
                    assert(":"@ =~= seq![':']);
                }
                append_value(&mut out, &entries[i].1);
                proof {
                    lemma_obj_items_push(items.subrange(0, i as int), items[i as int]);
                    assert(items.subrange(0, i + 1) =~= items.subrange(0, i as int).push(
                        items[i as int],
                    ));
                    assert(out@ =~= mid + obj_items_chars(items.subrange(0, i + 1)));
                }
                i = i + 1;
            }
            proof {
                assert(items.subrange(0, entries@.len() as int) =~= items);
            }
            out.append("}");
            proof {
                reveal_strlit("}");
                assert("}"@ =~= seq!['}']);
            }
        }
        match &self.batch_size {
            Some(n) => {
                out.append(",\"batchSize\":");
                let d = crate::text::u64_to_dec_string((*n) as u64);
                out.append(d.as_str());
            },
            None => {},
        }
        out.append("}");
        proof {
            reveal_strlit("}");
            assert("}"@ =~= seq!['}']);
            assert(out@ =~= wire_chars(self.text(), self.binds(), self.batch()));
        }
        out
    }
}

} // verus!
