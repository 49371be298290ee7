//! Documents as the database keeps them: the mandatory housekeeping
//! fields every stored document carries, and edges between documents.

use vstd::prelude::*;
use vstd::string::*;
use crate::value::{
    jprops_of, jval_of, lemma_jprops_of, lemma_jprops_of_push, clone_value, JVal, JsonValue,
};

verus! {

/// The properties the database may add to any stored document.  Unknown
/// properties are collected under `extra`, so a record type that has not
/// caught up with its collection still round-trips.  Left empty, the four
/// named fields are omitted from wire output, as a document create wants.
#[derive(Debug, PartialEq)]
pub struct CollectionMandatory {
    pub _key: String,
    pub _id: String,
    pub _rev: String,
    pub _old_rev: String,
    pub extra: Vec<(String, JsonValue)>,
}

impl CollectionMandatory {
    /// A document handle holding only its key.
    pub fn with_key(_key: &str) -> (r: Self)
        ensures
            r._key@ == _key@,
            r._id@ == Seq::<char>::empty(),
            r._rev@ == Seq::<char>::empty(),
            r._old_rev@ == Seq::<char>::empty(),
            r.extra@.len() == 0,
    {
        Self {
            _key: String::from_str(_key),
            _id: String::new(),
            _rev: String::new(),
            _old_rev: String::new(),
            extra: Vec::new(),
        }
    }

    /// The document's id.
    pub fn id(&self) -> (r: &str)
        ensures
            r@ == self._id@,
    {
        self._id.as_str()
    }

    /// The document's key.
    pub fn key(&self) -> (r: &str)
        ensures
            r@ == self._key@,
    {
        self._key.as_str()
    }
}

/// An edge between two documents.
#[derive(Debug, PartialEq)]
pub struct Edge {
    pub _from: String,
    pub _to: String,
    pub mandatory: CollectionMandatory,
}

impl Edge {
    /// An edge from one document id to another, with nothing else set.
    pub fn new(_from: &str, _to: &str) -> (r: Self)
        ensures
            r._from@ == _from@,
            r._to@ == _to@,
            r.mandatory._key@ == Seq::<char>::empty(),
            r.mandatory._id@ == Seq::<char>::empty(),
            r.mandatory._rev@ == Seq::<char>::empty(),
            r.mandatory._old_rev@ == Seq::<char>::empty(),
            r.mandatory.extra@.len() == 0,
    {
        Self {
            _from: String::from_str(_from),
            _to: String::from_str(_to),
            mandatory: CollectionMandatory {
                _key: String::new(),
                _id: String::new(),
                _rev: String::new(),
                _old_rev: String::new(),
                extra: Vec::new(),
            },
        }
    }

    /// The edge's wire value: `_from` and `_to`, then the mandatory
    /// fields that are set, then the extra properties.
    pub fn to_wire(&self) -> (r: JsonValue)
        ensures
            jval_of(r) == JVal::Obj(edge_wire_props(self)),
    {
        let mut ps: Vec<(String, JsonValue)> = Vec::new();
        ps.push((String::from_str("_from"), JsonValue::Str(self._from.clone())));
        ps.push((String::from_str("_to"), JsonValue::Str(self._to.clone())));
        if self.mandatory._key.as_str().unicode_len() > 0 {
            ps.push((String::from_str("_key"), JsonValue::Str(self.mandatory._key.clone())));
        }
        if self.mandatory._id.as_str().unicode_len() > 0 {
            ps.push((String::from_str("_id"), JsonValue::Str(self.mandatory._id.clone())));
        }
        if self.mandatory._rev.as_str().unicode_len() > 0 {
            ps.push((String::from_str("_rev"), JsonValue::Str(self.mandatory._rev.clone())));
        }
        if self.mandatory._old_rev.as_str().unicode_len() > 0 {
            ps.push(
                (String::from_str("_oldRev"), JsonValue::Str(self.mandatory._old_rev.clone())),
            );
        }
        let ghost before_extra = ps@;
        proof {
            lemma_jprops_of(before_extra);
            lemma_jprops_of(self.mandatory.extra@);
            assert(jprops_of(before_extra) =~= edge_wire_props(self).subrange(
                0,
                edge_wire_props(self).len() - self.mandatory.extra@.len(),
            ));
        }
        let mut i: usize = 0;
        while i < self.mandatory.extra.len()
            invariant
                i <= self.mandatory.extra@.len(),
                jprops_of(ps@) == edge_wire_props(self).subrange(
                    0,
                    edge_wire_props(self).len() - self.mandatory.extra@.len() + i,
                ),
            decreases self.mandatory.extra.len() - i,
        {
            let name = self.mandatory.extra[i].0.clone();
            let val = clone_value(&self.mandatory.extra[i].1);
            let ghost ps0 = ps@;
            ps.push((name, val));
            proof {
                lemma_jprops_of_push(ps0, ps@[ps@.len() - 1]);
                lemma_jprops_of(self.mandatory.extra@);
                let all = edge_wire_props(self);
                let base = all.len() - self.mandatory.extra@.len();
                assert(all[base + i] == (
                    self.mandatory.extra@[i as int].0@,
                    jval_of(self.mandatory.extra@[i as int].1),
                ));
                assert(all.subrange(0, base + i + 1) =~= all.subrange(0, base + i).push(
                    all[base + i],
                ));
            }
            i = i + 1;
        }
        proof {
            assert(edge_wire_props(self).subrange(0, edge_wire_props(self).len() as int)
                =~= edge_wire_props(self));
        }
        JsonValue::Object(ps)
    }
}

/// A string entry, present only when the text is non-empty.
pub open spec fn str_prop_if_set(key: Seq<char>, text: Seq<char>) -> Seq<(Seq<char>, JVal)> {
    if text.len() == 0 {
        Seq::empty()
    } else {
        seq![(key, JVal::Str(text))]
    }
}

/// The wire entries of an edge, in field order.
pub open spec fn edge_wire_props(e: &Edge) -> Seq<(Seq<char>, JVal)> {
    seq![("_from"@, JVal::Str(e._from@)), ("_to"@, JVal::Str(e._to@))] + str_prop_if_set(
        "_key"@,
        e.mandatory._key@,
    ) + str_prop_if_set("_id"@, e.mandatory._id@) + str_prop_if_set("_rev"@, e.mandatory._rev@)
        + str_prop_if_set("_oldRev"@, e.mandatory._old_rev@) + jprops_of(e.mandatory.extra@)
}

} // verus!
