//! The schema-driven operation generator: from an ordered list of named,
//! typed fields it produces one condition operation per (field, operator)
//! pair and one field-set operation per field, once per schema.

use vstd::prelude::*;
use vstd::string::*;
use crate::builder::{
    ArangoBuilder, CmpOp, Conditionable, Conditional, UpdateField, UpdateWith,
};
use crate::bind_vars::bv_insert;
use crate::value::{jval_of, JsonValue};

verus! {

/// What kind of value a schema field holds.
#[derive(Clone, Copy, PartialEq, Eq, Structural, Debug)]
pub enum FieldKind {
    Boolean,
    Integer,
    Text,
}

/// One named, typed field of a record schema.
#[derive(Debug)]
pub struct FieldDef {
    pub name: String,
    pub kind: FieldKind,
}

/// Why a record definition cannot drive the generator.
#[derive(Clone, Copy, PartialEq, Eq, Structural, Debug)]
pub enum SchemaError {
    /// A field has no name, as in a positional-only record: there is no
    /// sensible operation name to generate for it.
    NoAddressableFields,
}

impl SchemaError {
    /// A fixed description of the failure.
    pub fn message(&self) -> (m: &'static str)
        ensures
            m@ == "record fields must be named to generate per-field operations"@,
    {
        "record fields must be named to generate per-field operations"
    }
}

/// The views of a field list: (name, kind) per field.
pub open spec fn field_views(s: Seq<FieldDef>) -> Seq<(Seq<char>, FieldKind)> {
    Seq::new(s.len(), |i: int| (s[i].name@, s[i].kind))
}

/// A validated record schema: an ordered set of named fields.
#[derive(Debug)]
pub struct Schema {
    fields: Vec<FieldDef>,
}

/// Whether a single value fits a field of the given kind.
pub open spec fn kind_accepts(k: FieldKind, v: JsonValue) -> bool {
    match k {
        FieldKind::Boolean => v is Bool,
        FieldKind::Integer => v is Int || v is UInt,
        FieldKind::Text => v is Str,
    }
}

/// Whether a value fits a condition of the given operator against a field
/// of the given kind: the membership operators take a sequence of fitting
/// values, every other operator one fitting value.
pub open spec fn cond_accepts(k: FieldKind, op: CmpOp, v: JsonValue) -> bool {
    if op is In || op is NotIn {
        &&& v is Array
        &&& forall|i: int|
            0 <= i < v->Array_0@.len() ==> kind_accepts(k, #[trigger] v->Array_0@[i])
    } else {
        kind_accepts(k, v)
    }
}

/// Checks that a single value fits a field of the given kind.
pub fn check_kind(k: FieldKind, v: &JsonValue) -> (r: bool)
    ensures
        r == kind_accepts(k, *v),
{
    match k {
        FieldKind::Boolean => matches!(v, JsonValue::Bool(_)),
        FieldKind::Integer => matches!(v, JsonValue::Int(_)) || matches!(v, JsonValue::UInt(_)),
        FieldKind::Text => matches!(v, JsonValue::Str(_)),
    }
}

impl Schema {
    /// The schema's fields.
    pub closed spec fn fields_view(&self) -> Seq<(Seq<char>, FieldKind)> {
        field_views(self.fields@)
    }

    /// Every field is named.
    pub open spec fn wf(&self) -> bool {
        forall|i: int|
            0 <= i < self.fields_view().len() ==> #[trigger] self.fields_view()[i].0.len() > 0
    }

    /// Validates a record definition once: it is rejected exactly when
    /// some field has no name.
    pub fn new(fields: Vec<FieldDef>) -> (r: Result<Schema, SchemaError>)
        ensures
            r is Ok <==> (forall|i: int|
                0 <= i < fields@.len() ==> #[trigger] fields@[i].name@.len() > 0),
            r is Ok ==> r->Ok_0.fields_view() == field_views(fields@) && r->Ok_0.wf(),
            r is Err ==> r->Err_0 == SchemaError::NoAddressableFields,
    {
        let mut i: usize = 0;
        while i < fields.len()
            invariant
                i <= fields@.len(),
                forall|j: int| 0 <= j < i ==> #[trigger] fields@[j].name@.len() > 0,
            decreases fields.len() - i,
        {
            if fields[i].name.as_str().unicode_len() == 0 {
                return Err(SchemaError::NoAddressableFields);
            }
            i = i + 1;
        }
        let s = Schema { fields };
        Ok(s)
    }

    /// How many fields the schema has.
    pub fn len(&self) -> (n: usize)
        ensures
            n == self.fields_view().len(),
    {
        self.fields.len()
    }

    /// The generated condition operations: for each field in order, one
    /// operation per comparison operator, in the fixed operator order.
    pub fn condition_ops(&self) -> (r: Vec<ConditionOp>)
        ensures
            r@.len() == 8 * self.fields_view().len(),
            forall|i: int|
                0 <= i < r@.len() ==> {
                    &&& (#[trigger] r@[i]).field@ == self.fields_view()[i / 8].0
                    &&& r@[i].kind == self.fields_view()[i / 8].1
                    &&& r@[i].op == ops_order()[i % 8]
                },
    {
        let mut r: Vec<ConditionOp> = Vec::new();
        let mut f: usize = 0;
        while f < self.fields.len()
            invariant
                f <= self.fields@.len(),
                r@.len() == 8 * f,
                forall|i: int|
                    0 <= i < r@.len() ==> {
                        &&& (#[trigger] r@[i]).field@ == field_views(self.fields@)[i / 8].0
                        &&& r@[i].kind == field_views(self.fields@)[i / 8].1
                        &&& r@[i].op == ops_order()[i % 8]
                    },
            decreases self.fields.len() - f,
        {
            let name = &self.fields[f].name;
            let kind = self.fields[f].kind;
            let mut o: usize = 0;
            while o < 8
                invariant
                    o <= 8,
                    f < self.fields@.len(),
                    name@ == field_views(self.fields@)[f as int].0,
                    kind == field_views(self.fields@)[f as int].1,
                    r@.len() == 8 * f + o,
                    forall|i: int|
                        0 <= i < r@.len() ==> {
                            &&& (#[trigger] r@[i]).field@ == field_views(self.fields@)[i / 8].0
                            &&& r@[i].kind == field_views(self.fields@)[i / 8].1
                            &&& r@[i].op == ops_order()[i % 8]
                        },
                decreases 8 - o,
            {
                let op = match o {
                    0 => CmpOp::Eq,
                    1 => CmpOp::Ne,
                    2 => CmpOp::Gt,
                    3 => CmpOp::Lt,
                    4 => CmpOp::Ge,
                    5 => CmpOp::Le,
                    6 => CmpOp::In,
                    _ => CmpOp::NotIn,
                };
                proof {
                    assert(op == ops_order()[(8 * f + o) as int % 8]);
                }
                r.push(ConditionOp { field: name.clone(), op, kind });
                o = o + 1;
            }
            f = f + 1;
        }
        r
    }

    /// The generated field-set operations: one per field, in order.
    pub fn set_field_ops(&self) -> (r: Vec<SetFieldOp>)
        ensures
            r@.len() == self.fields_view().len(),
            forall|i: int|
                0 <= i < r@.len() ==> {
                    &&& (#[trigger] r@[i]).field@ == self.fields_view()[i].0
                    &&& r@[i].kind == self.fields_view()[i].1
                },
    {
        let mut r: Vec<SetFieldOp> = Vec::new();
        let mut f: usize = 0;
        while f < self.fields.len()
            invariant
                f <= self.fields@.len(),
                r@.len() == f,
                forall|i: int|
                    0 <= i < r@.len() ==> {
                        &&& (#[trigger] r@[i]).field@ == field_views(self.fields@)[i].0
                        &&& r@[i].kind == field_views(self.fields@)[i].1
                    },
            decreases self.fields.len() - f,
        {
            r.push(
                SetFieldOp { field: self.fields[f].name.clone(), kind: self.fields[f].kind },
            );
            f = f + 1;
        }
        r
    }
}

/// The fixed order in which condition operations are generated per field.
pub open spec fn ops_order() -> Seq<CmpOp> {
    seq![
        CmpOp::Eq,
        CmpOp::Ne,
        CmpOp::Gt,
        CmpOp::Lt,
        CmpOp::Ge,
        CmpOp::Le,
        CmpOp::In,
        CmpOp::NotIn,
    ]
}

/// One generated condition operation: a comparison of one schema field
/// under one operator.
pub struct ConditionOp {
    pub field: String,
    pub op: CmpOp,
    pub kind: FieldKind,
}

impl ConditionOp {
    /// Checks that a value fits this operation, as the schema's field
    /// types demand.
    #[verifier::loop_isolation(false)]
    pub fn accepts(&self, v: &JsonValue) -> (r: bool)
        ensures
            r == cond_accepts(self.kind, self.op, *v),
    {
        match self.op {
            CmpOp::In | CmpOp::NotIn => {
                match v {
                    JsonValue::Array(es) => {
                        let mut i: usize = 0;
                        while i < es.len()
                            invariant
                                i <= es@.len(),
                                forall|j: int|
                                    0 <= j < i ==> kind_accepts(
                                        self.kind,
                                        #[trigger] es@[j],
                                    ),
                            decreases es.len() - i,
                        {
                            if !check_kind(self.kind, &es[i]) {
                                return false;
                            }
                            i = i + 1;
                        }
                        true
                    },
                    _ => false,
                }
            },
            _ => check_kind(self.kind, v),
        }
    }

    /// Applies the operation: the generated transition adding this
    /// field's comparison to the builder.
    pub fn apply<Tag: Conditionable>(&self, b: ArangoBuilder<Tag>, value: JsonValue) -> (r:
        ArangoBuilder<Conditional>)
        requires
            b.wf(),
            cond_accepts(self.kind, self.op, value),
        ensures
            r.q_type() == b.q_type(),
            r.frag_seq() == b.frag_seq().push(
                crate::builder::condition_frag(self.field@, self.op, b.binds().len()),
            ),
            r.binds() == bv_insert(
                b.binds(),
                crate::builder::filter_var_chars(b.binds().len()),
                jval_of(value),
            ),
            r.wf(),
    {
        b.condition(self.field.as_str(), self.op, value)
    }
}

/// One generated field-set operation for update queries.
pub struct SetFieldOp {
    pub field: String,
    pub kind: FieldKind,
}

impl SetFieldOp {
    /// Checks that a value fits this field.
    pub fn accepts(&self, v: &JsonValue) -> (r: bool)
        ensures
            r == kind_accepts(self.kind, *v),
    {
        check_kind(self.kind, v)
    }

    /// Applies the operation: the generated transition setting this field
    /// on the matched documents.
    pub fn apply<Tag: UpdateWith>(&self, b: ArangoBuilder<Tag>, value: JsonValue) -> (r:
        ArangoBuilder<UpdateField>)
        requires
            b.wf(),
            kind_accepts(self.kind, value),
        ensures
            r.q_type() == b.q_type(),
            r.frag_seq() == b.frag_seq().push(
                crate::builder::set_field_frag(self.field@, b.binds().len()),
            ),
            r.binds() == bv_insert(
                b.binds(),
                crate::builder::with_var_chars(b.binds().len()),
                jval_of(value),
            ),
            r.wf(),
    {
        b.set_field(self.field.as_str(), value)
    }
}

} // verus!
