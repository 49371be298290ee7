//! The bound-parameter value representation: a serializable tree of plain
//! values, together with its mathematical view.

use vstd::prelude::*;

verus! {

broadcast use vstd::std_specs::vec::axiom_vec_index_decreases;

/// A serializable parameter value.  The builder never inspects a value; it
/// only stores values under parameter names and hands them to the wire
/// serializer.
#[derive(Debug, PartialEq)]
pub enum JsonValue {
    Null,
    Bool(bool),
    Int(i64),
    UInt(u64),
    Str(String),
    Array(Vec<JsonValue>),
    Object(Vec<(String, JsonValue)>),
}

/// The mathematical shape of a parameter value: integers are unbounded and
/// text is a character sequence, so two values are equal exactly when they
/// hold the same data.
pub enum JVal {
    Null,
    Bool(bool),
    Int(int),
    Str(Seq<char>),
    Arr(Seq<JVal>),
    Obj(Seq<(Seq<char>, JVal)>),
}

/// The view of a value; signed and unsigned integers denote the same
/// mathematical integer.
pub open spec fn jval_of(v: JsonValue) -> JVal
    decreases v,
{
    match v {
        JsonValue::Null => JVal::Null,
        JsonValue::Bool(b) => JVal::Bool(b),
        JsonValue::Int(i) => JVal::Int(i as int),
        JsonValue::UInt(u) => JVal::Int(u as int),
        JsonValue::Str(s) => JVal::Str(s@),
        JsonValue::Array(es) => JVal::Arr(jvals_of(es@)),
        JsonValue::Object(ps) => JVal::Obj(jprops_of(ps@)),
    }
}

/// Views of a sequence of values, element by element.
pub open spec fn jvals_of(s: Seq<JsonValue>) -> Seq<JVal>
    decreases s,
{
    if s.len() == 0 {
        Seq::empty()
    } else {
        seq![jval_of(s[0])] + jvals_of(s.drop_first())
    }
}

/// Views of a sequence of named values, element by element.
pub open spec fn jprops_of(s: Seq<(String, JsonValue)>) -> Seq<(Seq<char>, JVal)>
    decreases s,
{
    if s.len() == 0 {
        Seq::empty()
    } else {
        seq![(s[0].0@, jval_of(s[0].1))] + jprops_of(s.drop_first())
    }
}

/// `jvals_of` maps the view over the sequence pointwise.
pub proof fn lemma_jvals_of(s: Seq<JsonValue>)
    ensures
        jvals_of(s).len() == s.len(),
        forall|i: int| 0 <= i < s.len() ==> jvals_of(s)[i] == jval_of(s[i]),
    decreases s,
{
    if s.len() > 0 {
        lemma_jvals_of(s.drop_first());
        assert forall|i: int| 0 <= i < s.len() implies jvals_of(s)[i] == jval_of(s[i]) by {
            if i > 0 {
                assert(s.drop_first()[i - 1] == s[i]);
            }
        }
    }
}

/// `jprops_of` maps the view over the sequence pointwise.
pub proof fn lemma_jprops_of(s: Seq<(String, JsonValue)>)
    ensures
        jprops_of(s).len() == s.len(),
        forall|i: int| 0 <= i < s.len() ==> jprops_of(s)[i] == (s[i].0@, jval_of(s[i].1)),
    decreases s,
{
    if s.len() > 0 {
        lemma_jprops_of(s.drop_first());
        assert forall|i: int| 0 <= i < s.len() implies jprops_of(s)[i] == (
        s[i].0@,
        jval_of(s[i].1),
        ) by {
            if i > 0 {
                assert(s.drop_first()[i - 1] == s[i]);
            }
        }
    }
}

/// Viewing one more element appends its view.
pub proof fn lemma_jvals_of_push(s: Seq<JsonValue>, x: JsonValue)
    ensures
        jvals_of(s.push(x)) == jvals_of(s).push(jval_of(x)),
{
    lemma_jvals_of(s.push(x));
    lemma_jvals_of(s);
    assert(jvals_of(s.push(x)) =~= jvals_of(s).push(jval_of(x)));
}

/// Viewing one more named element appends its view.
pub proof fn lemma_jprops_of_push(s: Seq<(String, JsonValue)>, x: (String, JsonValue))
    ensures
        jprops_of(s.push(x)) == jprops_of(s).push((x.0@, jval_of(x.1))),
{
    lemma_jprops_of(s.push(x));
    lemma_jprops_of(s);
    assert(jprops_of(s.push(x)) =~= jprops_of(s).push((x.0@, jval_of(x.1))));
}

/// A copy of a value holding the same data.
#[verifier::loop_isolation(false)]
#[verifier::rlimit(60)]
pub fn clone_value(v: &JsonValue) -> (r: JsonValue)
    ensures
        jval_of(r) == jval_of(*v),
    decreases *v,
{
    match v {
        JsonValue::Null => JsonValue::Null,
        JsonValue::Bool(b) => JsonValue::Bool(*b),
        JsonValue::Int(n) => JsonValue::Int(*n),
        JsonValue::UInt(u) => JsonValue::UInt(*u),
        JsonValue::Str(s) => JsonValue::Str(s.clone()),
        JsonValue::Array(es) => {
            let mut out: Vec<JsonValue> = Vec::new();
            proof {
                assert(jvals_of(es@.subrange(0, 0)) =~= Seq::<JVal>::empty());
                assert(jvals_of(out@) =~= Seq::<JVal>::empty());
            }
            let mut i: usize = 0;
            while i < es.len()
                invariant
                    i <= es@.len(),
                    jvals_of(out@) == jvals_of(es@.subrange(0, i as int)),
                decreases es.len() - i,
            {
                proof {
                    assert(decreases_to!(*v => v->Array_0));
                    assert(decreases_to!(v->Array_0 => v->Array_0@[i as int]));
                    assert(v->Array_0@[i as int] == es@[i as int]);
                    assert(decreases_to!(*v => es@[i as int]));
                }
                let ghost out0 = out@;
                let c = clone_value(&es[i]);
                out.push(c);
                proof {
                    lemma_jvals_of_push(out0, out@[out@.len() - 1]);
                    lemma_jvals_of_push(es@.subrange(0, i as int), es@[i as int]);
                    assert(es@.subrange(0, i + 1) =~= es@.subrange(0, i as int).push(
                        es@[i as int],
                    ));
                }
                i = i + 1;
            }
            proof {
                assert(es@.subrange(0, es@.len() as int) =~= es@);
            }
            JsonValue::Array(out)
        },
        JsonValue::Object(ps) => {
            let mut out: Vec<(String, JsonValue)> = Vec::new();
            proof {
                assert(jprops_of(ps@.subrange(0, 0)) =~= Seq::<(Seq<char>, JVal)>::empty());
                assert(jprops_of(out@) =~= Seq::<(Seq<char>, JVal)>::empty());
            }
            let mut i: usize = 0;
            while i < ps.len()
                invariant
                    i <= ps@.len(),
                    jprops_of(out@) == jprops_of(ps@.subrange(0, i as int)),
                decreases ps.len() - i,
            {
                proof {
                    assert(decreases_to!(*v => v->Object_0));
                    assert(decreases_to!(v->Object_0 => v->Object_0@[i as int]));
                    assert(decreases_to!(v->Object_0@[i as int] => v->Object_0@[i as int].1));
                    assert(v->Object_0@[i as int].1 == ps@[i as int].1);
                    assert(decreases_to!(*v => ps@[i as int].1));
                }
                let ghost out0 = out@;
                let name = ps[i].0.clone();
                let c = clone_value(&ps[i].1);
                out.push((name, c));
                proof {
                    lemma_jprops_of_push(out0, out@[out@.len() - 1]);
                    lemma_jprops_of_push(ps@.subrange(0, i as int), ps@[i as int]);
                    assert(ps@.subrange(0, i + 1) =~= ps@.subrange(0, i as int).push(
                        ps@[i as int],
                    ));
                }
                i = i + 1;
            }
            proof {
                assert(ps@.subrange(0, ps@.len() as int) =~= ps@);
            }
            JsonValue::Object(out)
        },
    }
}

impl View for JsonValue {
    type V = JVal;

    open spec fn view(&self) -> JVal {
        jval_of(*self)
    }
}

} // verus!
