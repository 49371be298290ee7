//! The wire shape of a finished query as a value tree, and its inverse:
//! deserializing the wire value reproduces the query's text and bound
//! parameters exactly.

use vstd::prelude::*;
use vstd::string::*;
use crate::bind_vars::{keys_sorted, BindVars};
use crate::query::ArangoQuery;
use crate::text::str_eq;
use crate::value::{jprops_of, jval_of, lemma_jprops_of, JVal, JsonValue};

verus! {

/// The wire value of a finished query: a `query` string entry, a
/// `bindVars` object entry when parameters are bound, and a `batchSize`
/// integer entry when a batch size is set.
pub open spec fn wire_jval(
    text: Seq<char>,
    binds: Seq<(Seq<char>, JVal)>,
    batch: Option<usize>,
) -> JVal {
    JVal::Obj(
        seq![("query"@, JVal::Str(text))] + (if binds.len() == 0 {
            Seq::<(Seq<char>, JVal)>::empty()
        } else {
            seq![("bindVars"@, JVal::Obj(binds))]
        }) + (match batch {
            None => Seq::<(Seq<char>, JVal)>::empty(),
            Some(n) => seq![("batchSize"@, JVal::Int(n as int))],
        }),
    )
}

/// Whether a wire value is an acceptable batch size.
pub open spec fn is_batch_val(v: JVal) -> bool {
    v is Int && 0 <= v->Int_0 <= usize::MAX
}

/// Reading a wire value back: the parts of the query it denotes, or
/// nothing when it does not have the wire shape.
pub open spec fn parse_wire(v: JVal) -> Option<
    (Seq<char>, Seq<(Seq<char>, JVal)>, Option<usize>),
> {
    match v {
        JVal::Obj(ps) => {
            if ps.len() < 1 || ps.len() > 3 {
                None
            } else if ps[0].0 != "query"@ || !(ps[0].1 is Str) {
                None
            } else {
                let text = ps[0].1->Str_0;
                if ps.len() == 1 {
                    Some((text, Seq::empty(), None))
                } else if ps.len() == 2 {
                    if ps[1].0 == "bindVars"@ && ps[1].1 is Obj && ps[1].1->Obj_0.len() > 0 {
                        Some((text, ps[1].1->Obj_0, None))
                    } else if ps[1].0 == "batchSize"@ && is_batch_val(ps[1].1) {
                        Some((text, Seq::empty(), Some(ps[1].1->Int_0 as usize)))
                    } else {
                        None
                    }
                } else {
                    if ps[1].0 == "bindVars"@ && ps[1].1 is Obj && ps[1].1->Obj_0.len() > 0
                        && ps[2].0 == "batchSize"@ && is_batch_val(ps[2].1) {
                        Some((text, ps[1].1->Obj_0, Some(ps[2].1->Int_0 as usize)))
                    } else {
                        None
                    }
                }
            }
        },
        _ => None,
    }
}

/// Serializing and reading back loses nothing: the wire value of any
/// query parts parses to exactly those parts.
pub proof fn lemma_wire_round_trip(
    text: Seq<char>,
    binds: Seq<(Seq<char>, JVal)>,
    batch: Option<usize>,
)
    ensures
        parse_wire(wire_jval(text, binds, batch)) == Some((text, binds, batch)),
{
    let v = wire_jval(text, binds, batch);
    let ps = v->Obj_0;
    reveal_strlit("query");
    reveal_strlit("bindVars");
    reveal_strlit("batchSize");
    assert("query"@.len() == 5);
    assert("bindVars"@.len() == 8);
    assert("batchSize"@.len() == 9);
    assert(ps[0] == ("query"@, JVal::Str(text)));
    if binds.len() == 0 {
        match batch {
            None => {
                assert(ps.len() == 1);
            },
            Some(n) => {
                assert(ps.len() == 2);
                assert(ps[1] == ("batchSize"@, JVal::Int(n as int)));
                assert("bindVars"@[0] != "batchSize"@[0] || "bindVars"@.len()
                    != "batchSize"@.len());
                assert(ps[1].0 != "bindVars"@);
                assert((n as int) as usize == n);
            },
        }
    } else {
        match batch {
            None => {
                assert(ps.len() == 2);
                assert(ps[1] == ("bindVars"@, JVal::Obj(binds)));
            },
            Some(n) => {
                assert(ps.len() == 3);
                assert(ps[1] == ("bindVars"@, JVal::Obj(binds)));
                assert(ps[2] == ("batchSize"@, JVal::Int(n as int)));
                assert((n as int) as usize == n);
            },
        }
    }
}

/// The text serialization and the wire value agree: the query's wire text
/// is exactly the wire value's text.
pub proof fn lemma_wire_text_is_json(
    text: Seq<char>,
    binds: Seq<(Seq<char>, JVal)>,
    batch: Option<usize>,
)
    ensures
        crate::emit::wire_chars(text, binds, batch) == crate::emit::json_chars(
            wire_jval(text, binds, batch),
        ),
{
    reveal_strlit("query");
    reveal_strlit("bindVars");
    reveal_strlit("batchSize");
    reveal_strlit("\"query\":");
    reveal_strlit(",\"bindVars\":");
    reveal_strlit(",\"batchSize\":");
    assert forall|i: int| 0 <= i < "query"@.len() implies crate::emit::is_plain(
        "query"@[i],
    ) by {
        crate::emit::lemma_plain_choices("query"@[i]);
    }
    assert forall|i: int| 0 <= i < "bindVars"@.len() implies crate::emit::is_plain(
        "bindVars"@[i],
    ) by {
        crate::emit::lemma_plain_choices("bindVars"@[i]);
    }
    assert forall|i: int| 0 <= i < "batchSize"@.len() implies crate::emit::is_plain(
        "batchSize"@[i],
    ) by {
        crate::emit::lemma_plain_choices("batchSize"@[i]);
    }
    crate::emit::lemma_esc_plain("query"@);
    crate::emit::lemma_esc_plain("bindVars"@);
    crate::emit::lemma_esc_plain("batchSize"@);
    let q_item = crate::emit::quoted("query"@) + seq![':'] + crate::emit::quoted(text);
    assert("\"query\":"@ =~= crate::emit::quoted("query"@) + seq![':']);
    let ps = wire_jval(text, binds, batch)->Obj_0;
    assert(ps[0] == ("query"@, JVal::Str(text)));
    assert(crate::emit::json_chars(JVal::Str(text)) == crate::emit::quoted(text));
    if binds.len() == 0 {
        match batch {
            None => {
                assert(ps.len() == 1);
                assert(ps =~= seq![("query"@, JVal::Str(text))]);
                crate::emit::lemma_obj_items_single(("query"@, JVal::Str(text)));
                assert(crate::emit::obj_items_chars(ps) == q_item);
                assert(crate::emit::wire_chars(text, binds, batch)
                    =~= crate::emit::json_chars(wire_jval(text, binds, batch)));
            },
            Some(n) => {
                assert(ps.len() == 2);
                assert(ps[1] == ("batchSize"@, JVal::Int(n as int)));
                assert(ps.drop_first() =~= seq![("batchSize"@, JVal::Int(n as int))]);
                crate::emit::lemma_obj_items_single(("batchSize"@, JVal::Int(n as int)));
                assert(crate::emit::json_chars(JVal::Int(n as int)) == crate::emit::int_chars(
                    n as int,
                ));
                assert(crate::emit::obj_items_chars(ps.drop_first())
                    == crate::emit::quoted("batchSize"@) + seq![':']
                    + crate::emit::int_chars(n as int));
                assert(",\"batchSize\":"@ =~= seq![','] + crate::emit::quoted("batchSize"@)
                    + seq![':']);
                assert(crate::emit::int_chars(n as int) == crate::text::dec_chars(n as nat));
                assert(crate::emit::obj_items_chars(ps) == q_item + seq![',']
                    + crate::emit::obj_items_chars(ps.drop_first()));
                assert(crate::emit::wire_chars(text, binds, batch)
                    =~= crate::emit::json_chars(wire_jval(text, binds, batch)));
            },
        }
    } else {
        let bv_item = crate::emit::quoted("bindVars"@) + seq![':'] + (seq!['{']
            + crate::emit::obj_items_chars(binds) + seq!['}']);
        assert(",\"bindVars\":"@ =~= seq![','] + crate::emit::quoted("bindVars"@) + seq![':']);
        match batch {
            None => {
                assert(ps.len() == 2);
                assert(ps[1] == ("bindVars"@, JVal::Obj(binds)));
                assert(ps.drop_first() =~= seq![("bindVars"@, JVal::Obj(binds))]);
                crate::emit::lemma_obj_items_single(("bindVars"@, JVal::Obj(binds)));
                assert(crate::emit::obj_items_chars(ps.drop_first()) == bv_item);
                assert(crate::emit::obj_items_chars(ps) == q_item + seq![',']
                    + crate::emit::obj_items_chars(ps.drop_first()));
                assert(crate::emit::wire_chars(text, binds, batch)
                    =~= crate::emit::json_chars(wire_jval(text, binds, batch)));
            },
            Some(n) => {
                assert(ps.len() == 3);
                assert(ps[1] == ("bindVars"@, JVal::Obj(binds)));
                assert(ps[2] == ("batchSize"@, JVal::Int(n as int)));
                assert(ps.drop_first() =~= seq![
                    ("bindVars"@, JVal::Obj(binds)),
                    ("batchSize"@, JVal::Int(n as int)),
                ]);
                assert(ps.drop_first() =~= seq![
                    ("bindVars"@, JVal::Obj(binds)),
                    ("batchSize"@, JVal::Int(n as int)),
                ]);
                crate::emit::lemma_obj_items_pair(
                    ("bindVars"@, JVal::Obj(binds)),
                    ("batchSize"@, JVal::Int(n as int)),
                );
                assert(crate::emit::json_chars(JVal::Int(n as int)) == crate::emit::int_chars(
                    n as int,
                ));
                assert(crate::emit::obj_items_chars(ps.drop_first()) == bv_item + seq![',']
                    + (crate::emit::quoted("batchSize"@) + seq![':'] + crate::emit::int_chars(
                    n as int,
                )));
                assert(crate::emit::obj_items_chars(ps) == q_item + seq![',']
                    + crate::emit::obj_items_chars(ps.drop_first()));
                assert(",\"batchSize\":"@ =~= seq![','] + crate::emit::quoted("batchSize"@)
                    + seq![':']);
                assert(crate::emit::int_chars(n as int) == crate::text::dec_chars(n as nat));
                assert(crate::emit::wire_chars(text, binds, batch)
                    =~= crate::emit::json_chars(wire_jval(text, binds, batch)));
            },
        }
    }
}

impl ArangoQuery {
    /// The query's wire value, the query surrendered.
    pub fn into_wire(self) -> (r: JsonValue)
        ensures
            jval_of(r) == wire_jval(self.text(), self.binds(), self.batch()),
    {
        proof {
            self.lemma_view_parts();
        }
        let ghost gt = self.text();
        let ghost gb = self.binds();
        let ghost gs = self.batch();
        let mut ps: Vec<(String, JsonValue)> = Vec::new();
        ps.push((String::from_str("query"), JsonValue::Str(self.query)));
        let empty = self.bind_vars.is_empty();
        if !empty {
            ps.push(
                (String::from_str("bindVars"), JsonValue::Object(self.bind_vars.into_entries())),
            );
        }
        match self.batch_size {
            Some(n) => {
                ps.push((String::from_str("batchSize"), JsonValue::UInt(n as u64)));
            },
            None => {},
        }
        let r = JsonValue::Object(ps);
        proof {
            lemma_jprops_of(ps@);
            assert(jprops_of(ps@) =~= wire_jval(gt, gb, gs)->Obj_0);
        }
        r
    }

    /// Reads a wire value back into a query.  It succeeds exactly on a
    /// value with the wire shape whose parameter entries are in strictly
    /// increasing name order, as serialization writes them, and then
    /// reproduces the text, parameters and batch size exactly.
    pub fn from_wire(v: JsonValue) -> (r: Option<ArangoQuery>)
        ensures
            r is Some <==> {
                &&& parse_wire(jval_of(v)) is Some
                &&& keys_sorted((parse_wire(jval_of(v))->0).1)
            },
            r is Some ==> {
                &&& (r->0).text() == (parse_wire(jval_of(v))->0).0
                &&& (r->0).binds() == (parse_wire(jval_of(v))->0).1
                &&& (r->0).batch() == (parse_wire(jval_of(v))->0).2
                &&& (r->0).wf()
            },
    {
        proof {
            reveal_strlit("query");
            reveal_strlit("bindVars");
            reveal_strlit("batchSize");
            assert("bindVars"@.len() != "batchSize"@.len());
            assert("query"@.len() != "bindVars"@.len());
            assert("query"@.len() != "batchSize"@.len());
        }
        let mut ps = match v {
            JsonValue::Object(ps) => ps,
            _ => {
                return None;
            },
        };
        let ghost psv = jprops_of(ps@);
        proof {
            lemma_jprops_of(ps@);
        }
        if ps.len() < 1 || ps.len() > 3 {
            return None;
        }
        let n_entries = ps.len();
        let (k0, v0) = ps.remove(0);
        proof {
            lemma_jprops_of(ps@);
            assert forall|j: int| 0 <= j < ps@.len() implies #[trigger] jprops_of(ps@)[j]
                == psv[j + 1] by {
                assert(jprops_of(ps@)[j] == (ps@[j].0@, jval_of(ps@[j].1)));
            }
        }
        proof {
            assert(psv[0] == (k0@, jval_of(v0)));
        }
        if !str_eq(k0.as_str(), "query") {
            return None;
        }
        let text = match v0 {
            JsonValue::Str(s) => s,
            _ => {
                return None;
            },
        };
        proof {
            assert(psv[0] == (k0@, JVal::Str(text@)));
        }
        let mut batch: Option<usize> = None;
        let mut binds = BindVars::new();
        if n_entries >= 2 {
            let (k1, v1) = ps.remove(0);
            proof {
                lemma_jprops_of(ps@);
                assert forall|j: int| 0 <= j < ps@.len() implies #[trigger] jprops_of(ps@)[j]
                    == psv[j + 2] by {
                    assert(jprops_of(ps@)[j] == (ps@[j].0@, jval_of(ps@[j].1)));
                }
            }
            proof {
                assert(psv[1] == (k1@, jval_of(v1)));
            }
            if str_eq(k1.as_str(), "bindVars") {
                let entries = match v1 {
                    JsonValue::Object(es) => es,
                    _ => {
                        return None;
                    },
                };
                if entries.is_empty() {
                    proof {
                        lemma_jprops_of(entries@);
                    }
                    return None;
                }
                proof {
                    lemma_jprops_of(entries@);
                }
                binds = match BindVars::from_sorted_entries(entries) {
                    Some(b) => b,
                    None => {
                        return None;
                    },
                };
                if n_entries == 3 {
                    let (k2, v2) = ps.remove(0);
                    proof {
                        assert(psv[2] == (k2@, jval_of(v2)));
                    }
                    if !str_eq(k2.as_str(), "batchSize") {
                        return None;
                    }
                    batch = match parse_batch(v2) {
                        Some(n) => Some(n),
                        None => {
                            return None;
                        },
                    };
                }
            } else if str_eq(k1.as_str(), "batchSize") {
                if n_entries == 3 {
                    return None;
                }
                batch = match parse_batch(v1) {
                    Some(n) => Some(n),
                    None => {
                        return None;
                    },
                };
            } else {
                return None;
            }
        }
        let r = match batch {
            Some(n) => ArangoQuery::raw_batched(text, binds, n),
            None => ArangoQuery::raw(text, binds),
        };
        Some(r)
    }
}

/// Reads a batch size from its wire value: a non-negative integer that
/// fits the platform's size type.
fn parse_batch(v: JsonValue) -> (r: Option<usize>)
    ensures
        r is Some <==> is_batch_val(jval_of(v)),
        r is Some ==> r->0 == jval_of(v)->Int_0 as usize,
{
    match v {
        JsonValue::UInt(u) => {
            if u <= usize::MAX as u64 {
                Some(u as usize)
            } else {
                None
            }
        },
        JsonValue::Int(i) => {
            if i >= 0 {
                let u = i as u64;
                if u <= usize::MAX as u64 {
                    Some(u as usize)
                } else {
                    None
                }
            } else {
                None
            }
        },
        _ => None,
    }
}

} // verus!
