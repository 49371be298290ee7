//! Reading wire text back: a mathematical reader of the serializer's
//! output, and the proof that reading text written by `json_chars`
//! recovers exactly the value that was written.  Together with the wire
//! round trip this pins the whole serialization down: the wire text of a
//! finished query determines its text and bound parameters.

use vstd::prelude::*;
use vstd::arithmetic::div_mod::{lemma_fundamental_div_mod, lemma_mod_bound};
use crate::emit::{
    arr_items_chars, esc_char, esc_chars, hex_digit, json_chars, obj_items_chars, quoted,
};
use crate::text::{dec_chars, dec_digit};
use crate::value::JVal;

verus! {

/// A decimal digit character.
pub open spec fn is_digit(c: char) -> bool {
    '0' <= c <= '9'
}

/// The value of a decimal digit character.
pub open spec fn digit_val(c: char) -> nat {
    ((c as int) - ('0' as int)) as nat
}

/// How many leading characters of the text are digits.
pub open spec fn digits_len(s: Seq<char>) -> nat
    decreases s.len(),
{
    if s.len() == 0 || !is_digit(s[0]) {
        0
    } else {
        1 + digits_len(s.drop_first())
    }
}

/// The number a text of digits denotes, most significant digit first.
pub open spec fn digits_val(s: Seq<char>) -> nat
    decreases s.len(),
{
    if s.len() == 0 {
        0
    } else {
        digits_val(s.drop_last()) * 10 + digit_val(s.last())
    }
}

/// A lowercase hexadecimal digit character.
pub open spec fn is_hex(c: char) -> bool {
    is_digit(c) || 'a' <= c <= 'f'
}

/// The value of a lowercase hexadecimal digit character.
pub open spec fn hex_val(c: char) -> nat {
    if is_digit(c) {
        digit_val(c)
    } else {
        (10 + (c as int) - ('a' as int)) as nat
    }
}

/// The character a short escape stands for.
pub open spec fn short_unesc(c: char) -> char {
    if c == '"' {
        '"'
    } else if c == '\\' {
        '\\'
    } else if c == 'b' {
        '\u{08}'
    } else if c == 't' {
        '\u{09}'
    } else if c == 'n' {
        '\u{0A}'
    } else if c == 'f' {
        '\u{0C}'
    } else {
        '\u{0D}'
    }
}

/// The characters that may follow a backslash as a short escape.
pub open spec fn is_short_esc(c: char) -> bool {
    c == '"' || c == '\\' || c == 'b' || c == 't' || c == 'n' || c == 'f' || c == 'r'
}

/// Character data whose code points are genuine (non-negative); every
/// view of real text satisfies this.
pub open spec fn chars_genuine(s: Seq<char>) -> bool {
    forall|i: int| 0 <= i < s.len() ==> (#[trigger] s[i]) as int >= 0
}

/// A value whose every piece of text is genuine character data.
pub open spec fn jval_genuine(v: JVal) -> bool
    decreases v,
{
    match v {
        JVal::Str(s) => chars_genuine(s),
        JVal::Arr(es) => jvals_genuine(es),
        JVal::Obj(ps) => jprops_genuine(ps),
        _ => true,
    }
}

/// Genuine character data in every element.
pub open spec fn jvals_genuine(es: Seq<JVal>) -> bool
    decreases es,
{
    es.len() == 0 || (jval_genuine(es[0]) && jvals_genuine(es.drop_first()))
}

/// Genuine character data in every name and value.
pub open spec fn jprops_genuine(ps: Seq<(Seq<char>, JVal)>) -> bool
    decreases ps,
{
    ps.len() == 0 || (chars_genuine(ps[0].0) && jval_genuine(ps[0].1) && jprops_genuine(
        ps.drop_first(),
    ))
}

/// Reads string content up to the closing quote, undoing escapes; yields
/// the content and the text after the quote.
pub open spec fn sp_string(s: Seq<char>) -> Option<(Seq<char>, Seq<char>)>
    decreases s.len(),
{
    if s.len() == 0 {
        None
    } else if s[0] == '"' {
        Some((Seq::empty(), s.drop_first()))
    } else if s[0] == '\\' {
        if s.len() < 2 {
            None
        } else if is_short_esc(s[1]) {
            match sp_string(s.skip(2)) {
                Some(p) => Some((seq![short_unesc(s[1])] + p.0, p.1)),
                None => None,
            }
        } else if s[1] == 'u' {
            if s.len() >= 6 && s[2] == '0' && s[3] == '0' && is_hex(s[4]) && is_hex(s[5]) {
                match sp_string(s.skip(6)) {
                    Some(p) => Some(
                        (seq![((hex_val(s[4]) * 16 + hex_val(s[5])) as char)] + p.0, p.1),
                    ),
                    None => None,
                }
            } else {
                None
            }
        } else {
            None
        }
    } else {
        match sp_string(s.drop_first()) {
            Some(p) => Some((seq![s[0]] + p.0, p.1)),
            None => None,
        }
    }
}

/// Reads a fixed word, yielding the given value and the rest.
pub open spec fn sp_lit(s: Seq<char>, lit: Seq<char>, v: JVal) -> Option<(JVal, Seq<char>)> {
    if lit.len() <= s.len() && s.subrange(0, lit.len() as int) == lit {
        Some((v, s.skip(lit.len() as int)))
    } else {
        None
    }
}

/// Reads one value.  The fuel falls on every nested read, so any fuel at
/// least the size of the value suffices.
pub open spec fn sp_value(s: Seq<char>, fuel: nat) -> Option<(JVal, Seq<char>)>
    decreases fuel,
{
    if fuel == 0 || s.len() == 0 {
        None
    } else if s[0] == 'n' {
        sp_lit(s, "null"@, JVal::Null)
    } else if s[0] == 't' {
        sp_lit(s, "true"@, JVal::Bool(true))
    } else if s[0] == 'f' {
        sp_lit(s, "false"@, JVal::Bool(false))
    } else if s[0] == '"' {
        match sp_string(s.drop_first()) {
            Some(p) => Some((JVal::Str(p.0), p.1)),
            None => None,
        }
    } else if s[0] == '-' {
        let t = s.drop_first();
        if digits_len(t) == 0 {
            None
        } else {
            Some(
                (
                    JVal::Int(-(digits_val(t.subrange(0, digits_len(t) as int)) as int)),
                    t.skip(digits_len(t) as int),
                ),
            )
        }
    } else if is_digit(s[0]) {
        Some(
            (
                JVal::Int(digits_val(s.subrange(0, digits_len(s) as int)) as int),
                s.skip(digits_len(s) as int),
            ),
        )
    } else if s[0] == '[' {
        let t = s.drop_first();
        if t.len() > 0 && t[0] == ']' {
            Some((JVal::Arr(Seq::empty()), t.drop_first()))
        } else {
            match sp_items(t, (fuel - 1) as nat) {
                Some(p) => if p.1.len() > 0 && p.1[0] == ']' {
                    Some((JVal::Arr(p.0), p.1.drop_first()))
                } else {
                    None
                },
                None => None,
            }
        }
    } else if s[0] == '{' {
        let t = s.drop_first();
        if t.len() > 0 && t[0] == '}' {
            Some((JVal::Obj(Seq::empty()), t.drop_first()))
        } else {
            match sp_props(t, (fuel - 1) as nat) {
                Some(p) => if p.1.len() > 0 && p.1[0] == '}' {
                    Some((JVal::Obj(p.0), p.1.drop_first()))
                } else {
                    None
                },
                None => None,
            }
        }
    } else {
        None
    }
}

/// Reads one or more comma-separated values.
pub open spec fn sp_items(s: Seq<char>, fuel: nat) -> Option<(Seq<JVal>, Seq<char>)>
    decreases fuel,
{
    if fuel == 0 {
        None
    } else {
        match sp_value(s, (fuel - 1) as nat) {
            Some(p) => if p.1.len() > 0 && p.1[0] == ',' {
                match sp_items(p.1.drop_first(), (fuel - 1) as nat) {
                    Some(q) => Some((seq![p.0] + q.0, q.1)),
                    None => None,
                }
            } else {
                Some((seq![p.0], p.1))
            },
            None => None,
        }
    }
}

/// Reads one or more comma-separated `"name":value` entries.
pub open spec fn sp_props(s: Seq<char>, fuel: nat) -> Option<(Seq<(Seq<char>, JVal)>, Seq<char>)>
    decreases fuel,
{
    if fuel == 0 || s.len() == 0 || s[0] != '"' {
        None
    } else {
        match sp_string(s.drop_first()) {
            Some(k) => if k.1.len() > 0 && k.1[0] == ':' {
                match sp_value(k.1.drop_first(), (fuel - 1) as nat) {
                    Some(p) => if p.1.len() > 0 && p.1[0] == ',' {
                        match sp_props(p.1.drop_first(), (fuel - 1) as nat) {
                            Some(q) => Some((seq![(k.0, p.0)] + q.0, q.1)),
                            None => None,
                        }
                    } else {
                        Some((seq![(k.0, p.0)], p.1))
                    },
                    None => None,
                }
            } else {
                None
            },
            None => None,
        }
    }
}

/// Fuel sufficient to read a value.
pub open spec fn jval_size(v: JVal) -> nat
    decreases v,
{
    match v {
        JVal::Arr(es) => 2 + jvals_size(es),
        JVal::Obj(ps) => 2 + jprops_size(ps),
        _ => 1,
    }
}

/// Fuel sufficient to read a sequence of values.
pub open spec fn jvals_size(es: Seq<JVal>) -> nat
    decreases es,
{
    if es.len() == 0 {
        1
    } else {
        1 + jval_size(es[0]) + jvals_size(es.drop_first())
    }
}

/// Fuel sufficient to read a sequence of entries.
pub open spec fn jprops_size(ps: Seq<(Seq<char>, JVal)>) -> nat
    decreases ps,
{
    if ps.len() == 0 {
        1
    } else {
        1 + jval_size(ps[0].1) + jprops_size(ps.drop_first())
    }
}

/// A decimal rendering consists of digits and reads back as the number.
proof fn lemma_dec_chars_digits(n: nat)
    ensures
        forall|i: int| 0 <= i < dec_chars(n).len() ==> is_digit(#[trigger] dec_chars(n)[i]),
        digits_val(dec_chars(n)) == n,
    decreases n,
{
    if n < 10 {
        assert(dec_chars(n) == seq![dec_digit(n)]);
        assert(dec_chars(n).drop_last() =~= Seq::<char>::empty());
        assert(dec_chars(n).last() == dec_digit(n));
        assert(is_digit(dec_digit(n)));
        assert(digit_val(dec_digit(n)) == n);
        assert(digits_val(Seq::<char>::empty()) == 0);
        assert(digits_val(dec_chars(n)) == digits_val(Seq::<char>::empty()) * 10 + digit_val(
            dec_digit(n),
        ));
    } else {
        lemma_dec_chars_digits(n / 10);
        let a = dec_chars(n / 10);
        assert(dec_chars(n) == a + seq![dec_digit(n % 10)]);
        assert(dec_chars(n).drop_last() =~= a);
        assert(dec_chars(n).last() == dec_digit(n % 10));
        assert(digit_val(dec_digit(n % 10)) == n % 10);
        lemma_fundamental_div_mod(n as int, 10);
        assert(digits_val(dec_chars(n)) == digits_val(a) * 10 + digit_val(dec_digit(n % 10)));
        assert(digits_val(a) == n / 10);
        assert((n as int) == 10 * ((n as int) / 10) + ((n as int) % 10));
        assert(((n as int) / 10) == (n / 10) as int);
        assert(((n as int) % 10) == (n % 10) as int);
        assert(digits_val(dec_chars(n)) == n);
        assert forall|i: int| 0 <= i < dec_chars(n).len() implies is_digit(
            #[trigger] dec_chars(n)[i],
        ) by {
            if i < a.len() {
                assert(dec_chars(n)[i] == a[i]);
            } else {
                assert(dec_chars(n)[i] == dec_digit(n % 10));
            }
        }
    }
}

/// The digit run of digit text followed by a non-digit is the digit text.
proof fn lemma_digits_len_concat(a: Seq<char>, rest: Seq<char>)
    requires
        forall|i: int| 0 <= i < a.len() ==> is_digit(#[trigger] a[i]),
        rest.len() == 0 || !is_digit(rest[0]),
    ensures
        digits_len(a + rest) == a.len(),
        (a + rest).subrange(0, a.len() as int) == a,
        (a + rest).skip(a.len() as int) == rest,
    decreases a.len(),
{
    assert((a + rest).subrange(0, a.len() as int) =~= a);
    assert((a + rest).skip(a.len() as int) =~= rest);
    if a.len() == 0 {
        assert(a + rest =~= rest);
    } else {
        assert((a + rest)[0] == a[0]);
        assert((a + rest).drop_first() =~= a.drop_first() + rest);
        assert forall|i: int| 0 <= i < a.drop_first().len() implies is_digit(
            #[trigger] a.drop_first()[i],
        ) by {
            assert(a.drop_first()[i] == a[i + 1]);
        }
        lemma_digits_len_concat(a.drop_first(), rest);
    }
}

/// Reading back a lowercase hexadecimal digit gives its value.
proof fn lemma_hex_digit_val(d: nat)
    requires
        d < 16,
    ensures
        is_hex(hex_digit(d)),
        hex_val(hex_digit(d)) == d,
{
}

/// Reading escaped text up to a closing quote undoes the escaping.
proof fn lemma_inv_string(t: Seq<char>, rest: Seq<char>)
    requires
        chars_genuine(t),
    ensures
        sp_string(esc_chars(t) + seq!['"'] + rest) == Some((t, rest)),
    decreases t.len(),
{
    let s = esc_chars(t) + seq!['"'] + rest;
    if t.len() == 0 {
        assert(esc_chars(t) == Seq::<char>::empty());
        assert(s =~= seq!['"'] + rest);
        assert(s[0] == '"');
        assert(s.drop_first() =~= rest);
        assert(sp_string(s) == Some((Seq::<char>::empty(), rest)));
        assert(Seq::<char>::empty() =~= t);
    } else {
        let c = t[0];
        let t1 = t.drop_first();
        let e = esc_char(c);
        assert(esc_chars(t) == e + esc_chars(t1));
        let inner = esc_chars(t1) + seq!['"'] + rest;
        assert(s =~= e + inner);
        assert(chars_genuine(t1)) by {
            assert forall|i: int| 0 <= i < t1.len() implies (#[trigger] t1[i]) as int >= 0 by {
                assert(t1[i] == t[i + 1]);
            }
        }
        lemma_inv_string(t1, rest);
        assert((c as int) >= 0);
        if c == '"' || c == '\\' {
            assert(e == seq!['\\', if c == '"' { '"' } else { '\\' }]);
            assert(s[0] == '\\' && s[1] == e[1]);
            assert(is_short_esc(s[1]));
            assert(short_unesc(s[1]) == c);
            assert(s.skip(2) =~= inner);
            assert(seq![c] + t1 =~= t);
        } else if c == '\u{08}' || c == '\u{09}' || c == '\u{0A}' || c == '\u{0C}' || c
            == '\u{0D}' {
            assert(s[0] == '\\' && s[1] == e[1]);
            assert(is_short_esc(s[1]));
            assert(short_unesc(s[1]) == c);
            assert(s.skip(2) =~= inner);
            assert(seq![c] + t1 =~= t);
        } else if (c as int) < 0x20 {
            let hi = ((c as int) / 16) as nat;
            let lo = ((c as int) % 16) as nat;
            assert(e == seq!['\\', 'u', '0', '0', hex_digit(hi), hex_digit(lo)]);
            assert(s[0] == '\\' && s[1] == 'u' && s[2] == '0' && s[3] == '0');
            assert(!is_short_esc('u'));
            lemma_fundamental_div_mod(c as int, 16);
            lemma_mod_bound(c as int, 16);
            assert(0 <= (c as int) && (c as int) < 0x20);
            assert(16 * ((c as int) / 16) == (c as int) - (c as int) % 16);
            assert((c as int) / 16 < 2);
            assert(hi < 16 && lo < 16);
            lemma_hex_digit_val(hi);
            lemma_hex_digit_val(lo);
            assert(s[4] == hex_digit(hi) && s[5] == hex_digit(lo));
            assert(s.skip(6) =~= inner);
            assert(hex_val(s[4]) * 16 + hex_val(s[5]) == hi * 16 + lo);
            assert(hi * 16 + lo == c as int) by {
                lemma_fundamental_div_mod(c as int, 16);
            }
            assert(((hex_val(s[4]) * 16 + hex_val(s[5])) as char) == c);
            assert(seq![c] + t1 =~= t);
        } else {
            assert(e == seq![c]);
            assert(s[0] == c);
            assert(s[0] != '"' && s[0] != '\\');
            assert(s.drop_first() =~= inner);
            assert(seq![c] + t1 =~= t);
        }
    }
}

/// The wire text of a value is non-empty and opens with the character
/// that classifies it.
proof fn lemma_json_chars_first(v: JVal)
    ensures
        json_chars(v).len() > 0,
        v is Null ==> json_chars(v)[0] == 'n',
        v is Bool ==> json_chars(v)[0] == if v->Bool_0 {
            't'
        } else {
            'f'
        },
        v is Str ==> json_chars(v)[0] == '"',
        v is Int && v->Int_0 >= 0 ==> is_digit(json_chars(v)[0]),
        v is Int && v->Int_0 < 0 ==> json_chars(v)[0] == '-',
        v is Arr ==> json_chars(v)[0] == '[',
        v is Obj ==> json_chars(v)[0] == '{',
{
    reveal_strlit("null");
    reveal_strlit("true");
    reveal_strlit("false");
    match v {
        JVal::Int(n) => {
            if n >= 0 {
                lemma_dec_chars_digits(n as nat);
                crate::text::lemma_dec_chars_len(n as nat);
            } else {
                crate::text::lemma_dec_chars_len((-n) as nat);
            }
        },
        _ => {},
    }
}

/// Reading the wire text of a genuine value, followed by anything that is
/// not a digit, recovers exactly the value and the rest, with any fuel at
/// least the value's size.
#[verifier::rlimit(100)]
proof fn lemma_inv_value(v: JVal, rest: Seq<char>, fuel: nat)
    requires
        jval_genuine(v),
        fuel >= jval_size(v),
        rest.len() > 0 ==> !is_digit(rest[0]),
    ensures
        sp_value(json_chars(v) + rest, fuel) == Some((v, rest)),
    decreases v,
{
    let s = json_chars(v) + rest;
    lemma_json_chars_first(v);
    assert(s[0] == json_chars(v)[0]);
    match v {
        JVal::Null => {
            reveal_strlit("null");
            assert(s.subrange(0, 4) =~= "null"@);
            assert(s.skip(4) =~= rest);
        },
        JVal::Bool(b) => {
            reveal_strlit("true");
            reveal_strlit("false");
            if b {
                assert(s.subrange(0, 4) =~= "true"@);
                assert(s.skip(4) =~= rest);
            } else {
                assert(s.subrange(0, 5) =~= "false"@);
                assert(s.skip(5) =~= rest);
            }
        },
        JVal::Str(t) => {
            assert(s.drop_first() =~= esc_chars(t) + seq!['"'] + rest);
            lemma_inv_string(t, rest);
        },
        JVal::Int(n) => {
            if n >= 0 {
                let a = dec_chars(n as nat);
                lemma_dec_chars_digits(n as nat);
                lemma_digits_len_concat(a, rest);
                assert(s =~= a + rest);
                assert(is_digit(s[0]));
                assert(s[0] != 'n' && s[0] != 't' && s[0] != 'f' && s[0] != '"' && s[0]
                    != '-');
                assert(digits_val(s.subrange(0, digits_len(s) as int)) == n);
            } else {
                let a = dec_chars((-n) as nat);
                lemma_dec_chars_digits((-n) as nat);
                assert(json_chars(v) == seq!['-'] + a);
                let t = s.drop_first();
                assert(t =~= a + rest);
                lemma_digits_len_concat(a, rest);
                crate::text::lemma_dec_chars_len((-n) as nat);
                assert(digits_len(t) == a.len());
                assert(digits_val(t.subrange(0, digits_len(t) as int)) == (-n) as nat);
                assert(t.skip(digits_len(t) as int) == rest);
            }
        },
        JVal::Arr(es) => {
            let t = s.drop_first();
            if es.len() == 0 {
                assert(arr_items_chars(es) == Seq::<char>::empty());
                assert(t =~= seq![']'] + rest);
                assert(t[0] == ']');
                assert(t.drop_first() =~= rest);
                assert(es =~= Seq::<JVal>::empty());
            } else {
                let rest2 = seq![']'] + rest;
                assert(t =~= arr_items_chars(es) + rest2);
                assert(jvals_genuine(es));
                lemma_inv_items(es, rest2, (fuel - 1) as nat);
                assert(t[0] == (arr_items_chars(es) + rest2)[0]);
                lemma_json_chars_first(es[0]);
                assert(arr_items_chars(es)[0] == json_chars(es[0])[0]) by {
                    if es.len() == 1 {
                    } else {
                    }
                }
                assert(t[0] != ']');
                assert(rest2.drop_first() =~= rest);
            }
        },
        JVal::Obj(ps) => {
            let t = s.drop_first();
            if ps.len() == 0 {
                assert(obj_items_chars(ps) == Seq::<char>::empty());
                assert(t =~= seq!['}'] + rest);
                assert(t[0] == '}');
                assert(t.drop_first() =~= rest);
                assert(ps =~= Seq::<(Seq<char>, JVal)>::empty());
            } else {
                let rest2 = seq!['}'] + rest;
                assert(t =~= obj_items_chars(ps) + rest2);
                assert(jprops_genuine(ps));
                lemma_inv_props(ps, rest2, (fuel - 1) as nat);
                assert(t[0] == (obj_items_chars(ps) + rest2)[0]);
                assert(obj_items_chars(ps)[0] == '"') by {
                    assert(quoted(ps[0].0)[0] == '"');
                }
                assert(t[0] != '}');
                assert(rest2.drop_first() =~= rest);
            }
        },
    }
}

/// Reading the item text of a non-empty value sequence recovers the
/// values, up to the closing delimiter.
proof fn lemma_inv_items(es: Seq<JVal>, rest2: Seq<char>, fuel: nat)
    requires
        jvals_genuine(es),
        es.len() > 0,
        fuel >= jvals_size(es),
        rest2.len() > 0,
        rest2[0] != ',',
        !is_digit(rest2[0]),
    ensures
        sp_items(arr_items_chars(es) + rest2, fuel) == Some((es, rest2)),
    decreases es,
{
    let s = arr_items_chars(es) + rest2;
    if es.len() == 1 {
        assert(s =~= json_chars(es[0]) + rest2);
        lemma_inv_value(es[0], rest2, (fuel - 1) as nat);
        assert(seq![es[0]] =~= es);
    } else {
        let t = es.drop_first();
        assert(jvals_genuine(t) && jval_genuine(es[0]));
        let tail_text = arr_items_chars(t) + rest2;
        let first_rest = seq![','] + tail_text;
        assert(s =~= json_chars(es[0]) + first_rest);
        lemma_inv_value(es[0], first_rest, (fuel - 1) as nat);
        assert(first_rest[0] == ',');
        assert(first_rest.drop_first() =~= tail_text);
        lemma_inv_items(t, rest2, (fuel - 1) as nat);
        assert(seq![es[0]] + t =~= es);
    }
}

/// Reading the entry text of a non-empty entry sequence recovers the
/// entries, up to the closing delimiter.
proof fn lemma_inv_props(ps: Seq<(Seq<char>, JVal)>, rest2: Seq<char>, fuel: nat)
    requires
        jprops_genuine(ps),
        ps.len() > 0,
        fuel >= jprops_size(ps),
        rest2.len() > 0,
        rest2[0] != ',',
        !is_digit(rest2[0]),
    ensures
        sp_props(obj_items_chars(ps) + rest2, fuel) == Some((ps, rest2)),
    decreases ps,
{
    let s = obj_items_chars(ps) + rest2;
    let k = ps[0].0;
    let v = ps[0].1;
    assert(chars_genuine(k) && jval_genuine(v));
    if ps.len() == 1 {
        assert(s =~= quoted(k) + seq![':'] + json_chars(v) + rest2);
        assert(s[0] == '"');
        let after_key = seq![':'] + (json_chars(v) + rest2);
        assert(s.drop_first() =~= esc_chars(k) + seq!['"'] + after_key);
        lemma_inv_string(k, after_key);
        assert(after_key[0] == ':');
        assert(after_key.drop_first() =~= json_chars(v) + rest2);
        lemma_inv_value(v, rest2, (fuel - 1) as nat);
        assert(seq![(k, v)] =~= ps);
    } else {
        let t = ps.drop_first();
        let tail_text = obj_items_chars(t) + rest2;
        let value_rest = seq![','] + tail_text;
        assert(s =~= quoted(k) + seq![':'] + json_chars(v) + value_rest);
        assert(s[0] == '"');
        let after_key = seq![':'] + (json_chars(v) + value_rest);
        assert(s.drop_first() =~= esc_chars(k) + seq!['"'] + after_key);
        lemma_inv_string(k, after_key);
        assert(after_key[0] == ':');
        assert(after_key.drop_first() =~= json_chars(v) + value_rest);
        lemma_inv_value(v, value_rest, (fuel - 1) as nat);
        assert(value_rest[0] == ',');
        assert(value_rest.drop_first() =~= tail_text);
        lemma_inv_props(t, rest2, (fuel - 1) as nat);
        assert(seq![(k, v)] + t =~= ps);
    }
}

/// The wire serialization loses nothing: the wire text of a finished
/// query reads back as exactly the query's wire value, whose parts are
/// exactly the query's statement text, parameter table and batch size.
/// The wire text of a query therefore determines the query.
pub proof fn lemma_wire_text_round_trip(
    text: Seq<char>,
    binds: Seq<(Seq<char>, JVal)>,
    batch: Option<usize>,
    fuel: nat,
)
    requires
        chars_genuine(text),
        jprops_genuine(binds),
        fuel >= jval_size(crate::wire::wire_jval(text, binds, batch)),
    ensures
        sp_value(crate::emit::wire_chars(text, binds, batch), fuel) == Some(
            (crate::wire::wire_jval(text, binds, batch), Seq::<char>::empty()),
        ),
        crate::wire::parse_wire(crate::wire::wire_jval(text, binds, batch)) == Some(
            (text, binds, batch),
        ),
{
    let w = crate::wire::wire_jval(text, binds, batch);
    let ps = w->Obj_0;
    crate::wire::lemma_wire_text_is_json(text, binds, batch);
    crate::wire::lemma_wire_round_trip(text, binds, batch);
    reveal_strlit("query");
    reveal_strlit("bindVars");
    reveal_strlit("batchSize");
    assert(chars_genuine("query"@)) by {
        assert forall|i: int| 0 <= i < "query"@.len() implies (#[trigger] "query"@[i]) as int
            >= 0 by {
            if i == 0 {
            } else if i == 1 {
            } else if i == 2 {
            } else if i == 3 {
            } else {
                assert(i == 4);
            }
        }
    }
    assert(chars_genuine("bindVars"@)) by {
        assert forall|i: int|
            0 <= i < "bindVars"@.len() implies (#[trigger] "bindVars"@[i]) as int >= 0 by {
            if i == 0 {
            } else if i == 1 {
            } else if i == 2 {
            } else if i == 3 {
            } else if i == 4 {
            } else if i == 5 {
            } else if i == 6 {
            } else {
                assert(i == 7);
            }
        }
    }
    assert(chars_genuine("batchSize"@)) by {
        assert forall|i: int|
            0 <= i < "batchSize"@.len() implies (#[trigger] "batchSize"@[i]) as int >= 0 by {
            if i == 0 {
            } else if i == 1 {
            } else if i == 2 {
            } else if i == 3 {
            } else if i == 4 {
            } else if i == 5 {
            } else if i == 6 {
            } else if i == 7 {
            } else {
                assert(i == 8);
            }
        }
    }
    assert(jval_genuine(JVal::Str(text)));
    assert(jval_genuine(JVal::Obj(binds)));
    assert(jprops_genuine(Seq::<(Seq<char>, JVal)>::empty()));
    assert(jprops_genuine(ps)) by {
        if binds.len() == 0 {
            match batch {
                None => {
                    assert(ps =~= seq![("query"@, JVal::Str(text))]);
                    assert(ps.drop_first() =~= Seq::<(Seq<char>, JVal)>::empty());
                    assert(ps[0] == ("query"@, JVal::Str(text)));
                    assert(jprops_genuine(ps.drop_first()));
                },
                Some(n) => {
                    assert(ps =~= seq![
                        ("query"@, JVal::Str(text)),
                        ("batchSize"@, JVal::Int(n as int)),
                    ]);
                    let t1 = ps.drop_first();
                    assert(t1 =~= seq![("batchSize"@, JVal::Int(n as int))]);
                    assert(t1.drop_first() =~= Seq::<(Seq<char>, JVal)>::empty());
                    assert(jval_genuine(JVal::Int(n as int)));
                    assert(jprops_genuine(t1.drop_first()));
                    assert(jprops_genuine(t1));
                },
            }
        } else {
            match batch {
                None => {
                    assert(ps =~= seq![
                        ("query"@, JVal::Str(text)),
                        ("bindVars"@, JVal::Obj(binds)),
                    ]);
                    let t1 = ps.drop_first();
                    assert(t1 =~= seq![("bindVars"@, JVal::Obj(binds))]);
                    assert(t1.drop_first() =~= Seq::<(Seq<char>, JVal)>::empty());
                    assert(jprops_genuine(t1.drop_first()));
                    assert(jprops_genuine(t1));
                },
                Some(n) => {
                    assert(ps =~= seq![
                        ("query"@, JVal::Str(text)),
                        ("bindVars"@, JVal::Obj(binds)),
                        ("batchSize"@, JVal::Int(n as int)),
                    ]);
                    let t1 = ps.drop_first();
                    assert(t1 =~= seq![
                        ("bindVars"@, JVal::Obj(binds)),
                        ("batchSize"@, JVal::Int(n as int)),
                    ]);
                    let t2 = t1.drop_first();
                    assert(t2 =~= seq![("batchSize"@, JVal::Int(n as int))]);
                    assert(t2.drop_first() =~= Seq::<(Seq<char>, JVal)>::empty());
                    assert(jval_genuine(JVal::Int(n as int)));
                    assert(jprops_genuine(t2.drop_first()));
                    assert(jprops_genuine(t2));
                    assert(jprops_genuine(t1));
                },
            }
        }
    }
    lemma_inv_value(w, Seq::empty(), fuel);
    assert(json_chars(w) + Seq::<char>::empty() =~= json_chars(w));
}

} // verus!
