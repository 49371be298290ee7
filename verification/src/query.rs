//! The finished query: immutable statement text plus its bound-parameter
//! table, optionally carrying a result-batch-size hint.

use vstd::prelude::*;
use vstd::string::*;
use crate::bind_vars::BindVars;
use crate::value::jprops_of;
use crate::value::JVal;

verus! {

/// A finished query, ready for a transport collaborator.  Once built it is
/// never modified; `into_batched` consumes it and returns a new value.
pub struct ArangoQuery {
    pub(crate) query: String,
    pub(crate) bind_vars: BindVars,
    pub(crate) batch_size: Option<usize>,
}

/// The identifier of a server-side cursor from which further result
/// batches can be fetched.
pub struct CursorExtractor(pub String);

/// An executor of finished queries; the crate's mock implements it, and a
/// transport collaborator may as well.
pub trait ExecuteArangoQuery {
    type Output;

    fn execute_query(&self, query: ArangoQuery) -> Self::Output;
}

impl ArangoQuery {
    /// The statement text.
    pub closed spec fn text(&self) -> Seq<char> {
        self.query@
    }

    /// The bound-parameter table, as ordered (name, value) entries.
    pub closed spec fn binds(&self) -> Seq<(Seq<char>, JVal)> {
        self.bind_vars@
    }

    /// The result-batch-size hint, if any.
    pub closed spec fn batch(&self) -> Option<usize> {
        self.batch_size
    }

    /// The table is sorted by name.
    pub open spec fn wf(&self) -> bool {
        crate::bind_vars::keys_sorted(self.binds())
    }

    /// The spec accessors name exactly the fields.
    pub(crate) proof fn lemma_view_parts(&self)
        ensures
            self.text() == self.query@,
            self.binds() == self.bind_vars@,
            self.batch() == self.batch_size,
    {
    }

    /// A query with the given text and no bound parameters.
    pub fn new(query: &str) -> (r: Self)
        ensures
            r.text() == query@,
            r.binds() == Seq::<(Seq<char>, JVal)>::empty(),
            r.batch() is None,
            r.wf(),
    {
        Self { query: String::from_str(query), bind_vars: BindVars::new(), batch_size: None }
    }

    /// A query with the given text and bound parameters.
    pub fn with_bind_vars(query: &str, bind_vars: BindVars) -> (r: Self)
        requires
            bind_vars.wf(),
        ensures
            r.text() == query@,
            r.binds() == bind_vars@,
            r.batch() is None,
            r.wf(),
    {
        Self { query: String::from_str(query), bind_vars, batch_size: None }
    }

    /// Same as `with_bind_vars`, but taking owned text.
    pub fn raw(query: String, bind_vars: BindVars) -> (r: Self)
        requires
            bind_vars.wf(),
        ensures
            r.text() == query@,
            r.binds() == bind_vars@,
            r.batch() is None,
            r.wf(),
    {
        Self { query, bind_vars, batch_size: None }
    }

    /// Same as `raw`, with results to be returned in batches of
    /// `batch_size`.
    pub fn raw_batched(query: String, bind_vars: BindVars, batch_size: usize) -> (r: Self)
        requires
            bind_vars.wf(),
        ensures
            r.text() == query@,
            r.binds() == bind_vars@,
            r.batch() == Some(batch_size),
            r.wf(),
    {
        Self { query, bind_vars, batch_size: Some(batch_size) }
    }

    /// The statement text, as sent on the wire.
    pub fn query_str(&self) -> (r: &str)
        ensures
            r@ == self.text(),
    {
        self.query.as_str()
    }

    /// The bound-parameter names, in the table's order.
    pub fn bind_var_names(&self) -> (r: Vec<String>)
        ensures
            r@.len() == self.binds().len(),
            forall|i: int| 0 <= i < r@.len() ==> (#[trigger] r@[i])@ == self.binds()[i].0,
    {
        let entries = self.bind_vars.entries();
        proof {
            crate::value::lemma_jprops_of(entries@);
        }
        let mut r: Vec<String> = Vec::new();
        let mut i: usize = 0;
        while i < entries.len()
            invariant
                i <= entries@.len(),
                jprops_of(entries@) == self.binds(),
                entries@.len() == self.binds().len(),
                forall|j: int|
                    0 <= j < entries@.len() ==> (#[trigger] entries@[j]).0@ == self.binds()[j].0,
                r@.len() == i,
                forall|j: int| 0 <= j < i ==> (#[trigger] r@[j])@ == self.binds()[j].0,
            decreases entries.len() - i,
        {
            r.push(entries[i].0.clone());
            i = i + 1;
        }
        r
    }

    /// Converts an existing query to a batched one of size `batch_size`.
    pub fn into_batched(self, batch_size: usize) -> (r: Self)
        ensures
            r.text() == self.text(),
            r.binds() == self.binds(),
            r.batch() == Some(batch_size),
    {
        Self { query: self.query, bind_vars: self.bind_vars, batch_size: Some(batch_size) }
    }
}

} // verus!
