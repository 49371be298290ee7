//! The library's laws, stated once over the views its contracts use.

use vstd::prelude::*;
use crate::bind_vars::{bv_insert, lemma_bv_insert_overwrite, lemma_sorted_keys_unique};
use crate::builder::{ArangoBuilder, Limitable};
use crate::query::ArangoQuery;
use crate::value::JVal;

verus! {

/// Parameter naming is collision-free: in any well-formed finished query,
/// every bound-parameter name occurs exactly once in the table.
pub proof fn lemma_query_param_names_unique(q: ArangoQuery)
    requires
        q.wf(),
    ensures
        forall|i: int, j: int|
            0 <= i < q.binds().len() && 0 <= j < q.binds().len() && i != j
                ==> #[trigger] q.binds()[i].0 != #[trigger] q.binds()[j].0,
{
    lemma_sorted_keys_unique(q.binds());
}

/// `limit` is idempotent under repeated calls: capping a builder first at
/// `first` and then at `second` leaves exactly the parameter table of
/// capping it at `second` alone, and no transition but `limit` touches the
/// `limit` name, so the finished queries coincide.
pub proof fn lemma_limit_idempotent<Tag: Limitable>(
    b: ArangoBuilder<Tag>,
    first: u64,
    second: u64,
)
    ensures
        bv_insert(
            bv_insert(b.binds(), "limit"@, JVal::Int(first as int)),
            "limit"@,
            JVal::Int(second as int),
        ) == bv_insert(b.binds(), "limit"@, JVal::Int(second as int)),
{
    lemma_bv_insert_overwrite(
        b.binds(),
        "limit"@,
        JVal::Int(first as int),
        JVal::Int(second as int),
    );
}

} // verus!
