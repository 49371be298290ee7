//! The typestate query builder: marker states, capability traits, and one
//! pure transition per operation.  A builder value is consumed by every
//! transition and finally by `build`, which produces the finished query.

use vstd::prelude::*;
use vstd::string::*;
use crate::bind_vars::{bv_insert, keys_sorted, BindVars};
use crate::query::ArangoQuery;
use crate::text::{dec_chars, space_join, str_views, u64_to_dec_string, lemma_space_join_push};
use crate::value::{jval_of, JVal, JsonValue};

verus! {

/// The operation kind of a query, fixed by the first transition out of the
/// empty builder.
#[derive(Clone, Copy, PartialEq, Eq, Structural, Debug)]
pub enum QueryType {
    Create,
    Read,
    Update,
    Delete,
}

/// Result ordering: ascending is the query language's implicit default and
/// adds no keyword.
#[derive(Clone, Copy, PartialEq, Eq, Structural, Debug)]
pub enum SortingDirection {
    Asc,
    Desc,
}

/// The eight comparison operators a condition can use.
#[derive(Clone, Copy, PartialEq, Eq, Structural, Debug)]
pub enum CmpOp {
    Eq,
    Ne,
    Gt,
    Lt,
    Ge,
    Le,
    In,
    NotIn,
}

/// The fixed operator-symbol mapping.
pub open spec fn cmp_symbol_chars(op: CmpOp) -> Seq<char> {
    match op {
        CmpOp::Eq => "=="@,
        CmpOp::Ne => "!="@,
        CmpOp::Gt => ">"@,
        CmpOp::Lt => "<"@,
        CmpOp::Ge => ">="@,
        CmpOp::Le => "<="@,
        CmpOp::In => "IN"@,
        CmpOp::NotIn => "NOT IN"@,
    }
}

impl CmpOp {
    /// The symbol emitted for this operator, exactly the fixed mapping.
    pub fn symbol(self) -> (s: &'static str)
        ensures
            s@ == cmp_symbol_chars(self),
    {
        match self {
            CmpOp::Eq => "==",
            CmpOp::Ne => "!=",
            CmpOp::Gt => ">",
            CmpOp::Lt => "<",
            CmpOp::Ge => ">=",
            CmpOp::Le => "<=",
            CmpOp::In => "IN",
            CmpOp::NotIn => "NOT IN",
        }
    }
}

/// Marker trait of all builder states.
pub trait BuilderTag {}

/// States from which `build` may finalize the query.
pub trait Buildable: BuilderTag {}

/// States from which a comparison may be added to an open filter clause.
pub trait Conditionable: BuilderTag {}

/// States from which `and` or `or` may combine conditions.
pub trait LogicallyOperatable: BuilderTag {}

/// States from which a filter clause may be opened.
pub trait Filterable: BuilderTag {}

/// States from which a result cap may be set.
pub trait Limitable: BuilderTag {}

/// States from which fields may be set or the document replaced.
pub trait UpdateWith: BuilderTag {}

/// States from which an ordering may be added.
pub trait Sortable: BuilderTag {}

pub struct EmptyBuilder;

pub struct CreateQuery;

pub struct ReadQuery;

pub struct UpdateQuery;

pub struct DeleteQuery;

pub struct Conditional;

pub struct Filtering;

pub struct LogicalOperator;

pub struct UpdateField;

pub struct Sorting;

impl BuilderTag for EmptyBuilder {}

impl BuilderTag for CreateQuery {}

impl BuilderTag for ReadQuery {}

impl BuilderTag for UpdateQuery {}

impl BuilderTag for DeleteQuery {}

impl BuilderTag for Conditional {}

impl BuilderTag for Filtering {}

impl BuilderTag for LogicalOperator {}

impl BuilderTag for UpdateField {}

impl BuilderTag for Sorting {}

impl Buildable for ReadQuery {}

impl Buildable for DeleteQuery {}

impl Buildable for CreateQuery {}

impl Buildable for UpdateField {}

impl Buildable for Conditional {}

impl Buildable for Sorting {}

impl Conditionable for LogicalOperator {}

impl Conditionable for Filtering {}

impl Filterable for ReadQuery {}

impl Filterable for UpdateQuery {}

impl Filterable for DeleteQuery {}

impl Filterable for Conditional {}

impl Filterable for Sorting {}

impl Limitable for ReadQuery {}

impl Limitable for Conditional {}

impl Limitable for Sorting {}

impl LogicallyOperatable for Conditional {}

impl UpdateWith for Conditional {}

impl UpdateWith for UpdateQuery {}

impl Sortable for ReadQuery {}

impl Sortable for Filtering {}

/// The result cap bound under the reserved `limit` name when a read query
/// does not set one itself.
pub const DEFAULT_LIMIT: u64 = 100;

/// The fresh parameter name for the condition added when `n` parameters
/// are already bound.
pub open spec fn filter_var_chars(n: nat) -> Seq<char> {
    "filterVar"@ + dec_chars(n)
}

/// The fresh parameter name for the field-set operation added when `n`
/// parameters are already bound.
pub open spec fn with_var_chars(n: nat) -> Seq<char> {
    "withVar"@ + dec_chars(n)
}

/// The clause fragment a condition appends.
pub open spec fn condition_frag(field: Seq<char>, op: CmpOp, n: nat) -> Seq<char> {
    "item."@ + field + " "@ + cmp_symbol_chars(op) + " @"@ + filter_var_chars(n)
}

/// The clause fragment a field-set operation appends.
pub open spec fn set_field_frag(field: Seq<char>, n: nat) -> Seq<char> {
    "UPDATE item WITH { "@ + field + ": @"@ + with_var_chars(n) + " }"@
}

/// The clause fragment a whole-document replacement appends.
pub open spec fn replace_with_frag(n: nat) -> Seq<char> {
    "UPDATE item WITH @"@ + with_var_chars(n)
}

/// The clause fragment an ordering appends; only a descending order names
/// its direction.
pub open spec fn sort_frag(direction: SortingDirection) -> Seq<char> {
    match direction {
        SortingDirection::Asc => "SORT item.@sort_by"@,
        SortingDirection::Desc => "SORT item.@sort_by DESC"@,
    }
}

/// The terminal fragment `build` appends, chosen solely by the operation
/// kind.
pub open spec fn terminal_of(qt: Option<QueryType>) -> Seq<char> {
    match qt {
        Some(QueryType::Create) => "INTO @@collection RETURN NEW"@,
        Some(QueryType::Read) => "LIMIT @limit RETURN item"@,
        Some(QueryType::Update) => "IN @@collection RETURN NEW"@,
        Some(QueryType::Delete) => "REMOVE item IN @@collection RETURN OLD"@,
        None => Seq::empty(),
    }
}

/// Every numbered parameter name in the table was allocated below the
/// given bound.
pub open spec fn numbered_below(s: Seq<(Seq<char>, JVal)>, bound: nat) -> bool {
    &&& forall|i: int, n: nat|
        #![trigger s[i].0, filter_var_chars(n)]
        0 <= i < s.len() && s[i].0 == filter_var_chars(n) ==> n < bound
    &&& forall|i: int, n: nat|
        #![trigger s[i].0, with_var_chars(n)]
        0 <= i < s.len() && s[i].0 == with_var_chars(n) ==> n < bound
}

/// A name that starts with neither prefix letter is no numbered name.
proof fn lemma_not_numbered(k: Seq<char>)
    requires
        k.len() == 0 || (k[0] != 'f' && k[0] != 'w'),
    ensures
        forall|n: nat| k != #[trigger] filter_var_chars(n),
        forall|n: nat| k != #[trigger] with_var_chars(n),
{
    reveal_strlit("filterVar");
    reveal_strlit("withVar");
    assert forall|n: nat| k != #[trigger] filter_var_chars(n) by {
        crate::text::lemma_dec_chars_len(n);
        assert(filter_var_chars(n).len() > 0);
        assert(filter_var_chars(n)[0] == 'f');
    }
    assert forall|n: nat| k != #[trigger] with_var_chars(n) by {
        crate::text::lemma_dec_chars_len(n);
        assert(with_var_chars(n).len() > 0);
        assert(with_var_chars(n)[0] == 'w');
    }
}

/// Numbered names collide neither across prefixes nor across indices.
proof fn lemma_numbered_names_distinct(m: nat, n: nat)
    ensures
        filter_var_chars(m) == filter_var_chars(n) ==> m == n,
        with_var_chars(m) == with_var_chars(n) ==> m == n,
        filter_var_chars(m) != with_var_chars(n),
{
    reveal_strlit("filterVar");
    reveal_strlit("withVar");
    if filter_var_chars(m) == filter_var_chars(n) {
        assert(dec_chars(m) =~= filter_var_chars(m).subrange(
            9,
            filter_var_chars(m).len() as int,
        ));
        assert(dec_chars(n) =~= filter_var_chars(n).subrange(
            9,
            filter_var_chars(n).len() as int,
        ));
        crate::text::lemma_dec_chars_injective(m, n);
    }
    if with_var_chars(m) == with_var_chars(n) {
        assert(dec_chars(m) =~= with_var_chars(m).subrange(7, with_var_chars(m).len() as int));
        assert(dec_chars(n) =~= with_var_chars(n).subrange(7, with_var_chars(n).len() as int));
        crate::text::lemma_dec_chars_injective(m, n);
    }
    crate::text::lemma_dec_chars_len(m);
    assert(filter_var_chars(m)[0] == 'f');
    assert(with_var_chars(n)[0] == 'w');
}

/// Binding a name whose numbered reading (if any) is below the bound
/// keeps the table's numbered names below the bound.
proof fn lemma_bv_insert_numbered(s: Seq<(Seq<char>, JVal)>, k: Seq<char>, v: JVal, bound: nat)
    requires
        numbered_below(s, bound),
        forall|n: nat| k == #[trigger] filter_var_chars(n) ==> n < bound,
        forall|n: nat| k == #[trigger] with_var_chars(n) ==> n < bound,
    ensures
        numbered_below(bv_insert(s, k, v), bound),
{
    crate::bind_vars::lemma_bv_insert_keys(s, k, v);
    let r = bv_insert(s, k, v);
    assert forall|i: int, n: nat|
        #![trigger r[i].0, filter_var_chars(n)]
        0 <= i < r.len() && r[i].0 == filter_var_chars(n) implies n < bound by {
        if r[i].0 != k {
            let m = choose|m: int| 0 <= m < s.len() && s[m].0 == r[i].0;
            assert(s[m].0 == filter_var_chars(n));
        }
    }
    assert forall|i: int, n: nat|
        #![trigger r[i].0, with_var_chars(n)]
        0 <= i < r.len() && r[i].0 == with_var_chars(n) implies n < bound by {
        if r[i].0 != k {
            let m = choose|m: int| 0 <= m < s.len() && s[m].0 == r[i].0;
            assert(s[m].0 == with_var_chars(n));
        }
    }
}

/// A bound on the numbered names stays a bound when raised.
proof fn lemma_numbered_below_mono(s: Seq<(Seq<char>, JVal)>, b1: nat, b2: nat)
    requires
        numbered_below(s, b1),
        b1 <= b2,
    ensures
        numbered_below(s, b2),
{
}

/// Binding a fixed (non-numbered) name keeps the table's numbered names
/// below its size.
proof fn lemma_insert_fixed_keeps_numbered(s: Seq<(Seq<char>, JVal)>, k: Seq<char>, v: JVal)
    requires
        numbered_below(s, s.len()),
        k.len() == 0 || (k[0] != 'f' && k[0] != 'w'),
    ensures
        numbered_below(bv_insert(s, k, v), bv_insert(s, k, v).len()),
{
    lemma_not_numbered(k);
    lemma_bv_insert_numbered(s, k, v, s.len());
    crate::bind_vars::lemma_bv_insert_len(s, k, v);
    lemma_numbered_below_mono(bv_insert(s, k, v), s.len(), bv_insert(s, k, v).len());
}

/// The fresh name derived from the table's size is not yet bound, so
/// binding it appends a new entry and the new size bounds every numbered
/// name again.
proof fn lemma_insert_numbered_keeps(s: Seq<(Seq<char>, JVal)>, k: Seq<char>, v: JVal)
    requires
        numbered_below(s, s.len()),
        k == filter_var_chars(s.len()) || k == with_var_chars(s.len()),
    ensures
        bv_insert(s, k, v).len() == s.len() + 1,
        numbered_below(bv_insert(s, k, v), bv_insert(s, k, v).len()),
{
    assert forall|i: int| 0 <= i < s.len() implies (#[trigger] s[i]).0 != k by {
        if s[i].0 == k {
            assert(numbered_below(s, s.len()));
        }
    }
    crate::bind_vars::lemma_bv_insert_fresh_len(s, k, v);
    assert forall|n: nat| k == #[trigger] filter_var_chars(n) implies n < s.len() + 1 by {
        lemma_numbered_names_distinct(s.len(), n);
        lemma_numbered_names_distinct(n, s.len());
    }
    assert forall|n: nat| k == #[trigger] with_var_chars(n) implies n < s.len() + 1 by {
        lemma_numbered_names_distinct(s.len(), n);
        lemma_numbered_names_distinct(n, s.len());
    }
    lemma_bv_insert_numbered(s, k, v, s.len() + 1);
}

/// The generator never allocates a parameter name already present: in any
/// well-formed builder, the names derived from the current table size are
/// bound to no entry.
pub proof fn lemma_fresh_name_unused<Tag: BuilderTag>(b: &ArangoBuilder<Tag>)
    requires
        b.wf(),
    ensures
        forall|i: int|
            0 <= i < b.binds().len() ==> (#[trigger] b.binds()[i]).0 != filter_var_chars(
                b.binds().len(),
            ) && b.binds()[i].0 != with_var_chars(b.binds().len()),
{
}

/// A query under construction: the operation kind once chosen, the ordered
/// clause fragments, the bound parameters, and the state marker.
pub struct ArangoBuilder<Tag: BuilderTag> {
    query_type: Option<QueryType>,
    tag: Tag,
    bind_vars: BindVars,
    raw_query: Vec<String>,
}

impl<Tag: BuilderTag> ArangoBuilder<Tag> {
    /// The operation kind, if one has been chosen.
    pub closed spec fn q_type(&self) -> Option<QueryType> {
        self.query_type
    }

    /// The ordered clause fragments accumulated so far.
    pub closed spec fn frag_seq(&self) -> Seq<Seq<char>> {
        str_views(self.raw_query@)
    }

    /// The bound parameters accumulated so far.
    pub closed spec fn binds(&self) -> Seq<(Seq<char>, JVal)> {
        self.bind_vars@
    }

    /// The builder's invariant: the parameter table is sorted (so names
    /// are unique), every numbered parameter name was allocated below the
    /// table's size (so the next allocation is fresh), and no clause
    /// fragment is empty.
    pub open spec fn wf(&self) -> bool {
        &&& keys_sorted(self.binds())
        &&& numbered_below(self.binds(), self.binds().len())
        &&& forall|i: int| 0 <= i < self.frag_seq().len() ==> #[trigger] self.frag_seq()[i].len()
            > 0
    }
}

/// A parameter name: the given prefix followed by `n` in decimal.
fn param_name(prefix: &'static str, n: usize) -> (s: String)
    ensures
        s@ == prefix@ + dec_chars(n as nat),
{
    let mut s = String::from_str(prefix);
    let d = u64_to_dec_string(n as u64);
    s.append(d.as_str());
    s
}

impl ArangoBuilder<EmptyBuilder> {
    /// A fresh builder for the given collection; the collection name is
    /// bound under the reserved `@collection` name, which the query
    /// language interpolates as an identifier.
    pub fn new(collection_name: &str) -> (r: Self)
        ensures
            r.q_type() is None,
            r.frag_seq() == Seq::<Seq<char>>::empty(),
            r.binds() == seq![("@collection"@, JVal::Str(collection_name@))],
            r.wf(),
    {
        let mut bind_vars = BindVars::new();
        bind_vars.insert(String::from_str("@collection"), JsonValue::Str(String::from_str(collection_name)));
        let r = ArangoBuilder {
            query_type: None,
            tag: EmptyBuilder,
            bind_vars,
            raw_query: Vec::new(),
        };
        proof {
            assert(r.binds() =~= seq![("@collection"@, JVal::Str(collection_name@))]);
            assert(r.frag_seq() =~= Seq::<Seq<char>>::empty());
            reveal_strlit("@collection");
            lemma_insert_fixed_keeps_numbered(
                Seq::<(Seq<char>, JVal)>::empty(),
                "@collection"@,
                JVal::Str(collection_name@),
            );
        }
        r
    }

    /// Chooses the create kind: binds the document under `elem` and
    /// appends the insert fragment.
    pub fn create(self, elem: JsonValue) -> (r: ArangoBuilder<CreateQuery>)
        requires
            self.wf(),
        ensures
            r.q_type() == Some(QueryType::Create),
            r.frag_seq() == self.frag_seq().push("INSERT @elem"@),
            r.binds() == bv_insert(self.binds(), "elem"@, jval_of(elem)),
            r.wf(),
    {
        let mut bind_vars = self.bind_vars;
        bind_vars.insert(String::from_str("elem"), elem);
        let mut raw_query = self.raw_query;
        raw_query.push(String::from_str("INSERT @elem"));
        let r = ArangoBuilder { query_type: Some(QueryType::Create), tag: CreateQuery, bind_vars, raw_query };
        proof {
            reveal_strlit("INSERT @elem");
            assert(r.frag_seq() =~= self.frag_seq().push("INSERT @elem"@));
            reveal_strlit("elem");
            lemma_insert_fixed_keeps_numbered(self.binds(), "elem"@, jval_of(elem));
        }
        r
    }

    /// Chooses the read kind: opens the iteration fragment and binds the
    /// default result cap.
    pub fn read(self) -> (r: ArangoBuilder<ReadQuery>)
        requires
            self.wf(),
        ensures
            r.q_type() == Some(QueryType::Read),
            r.frag_seq() == self.frag_seq().push("FOR item IN @@collection"@),
            r.binds() == bv_insert(self.binds(), "limit"@, JVal::Int(DEFAULT_LIMIT as int)),
            r.wf(),
    {
        let mut bind_vars = self.bind_vars;
        bind_vars.insert(String::from_str("limit"), JsonValue::UInt(DEFAULT_LIMIT));
        let mut raw_query = self.raw_query;
        raw_query.push(String::from_str("FOR item IN @@collection"));
        let r = ArangoBuilder { query_type: Some(QueryType::Read), tag: ReadQuery, bind_vars, raw_query };
        proof {
            reveal_strlit("FOR item IN @@collection");
            assert(r.frag_seq() =~= self.frag_seq().push("FOR item IN @@collection"@));
            reveal_strlit("limit");
            lemma_insert_fixed_keeps_numbered(
                self.binds(),
                "limit"@,
                JVal::Int(DEFAULT_LIMIT as int),
            );
        }
        r
    }

    /// Chooses the update kind: opens the iteration fragment.
    pub fn update(self) -> (r: ArangoBuilder<UpdateQuery>)
        requires
            self.wf(),
        ensures
            r.q_type() == Some(QueryType::Update),
            r.frag_seq() == self.frag_seq().push("FOR item IN @@collection"@),
            r.binds() == self.binds(),
            r.wf(),
    {
        let mut raw_query = self.raw_query;
        raw_query.push(String::from_str("FOR item IN @@collection"));
        let r = ArangoBuilder {
            query_type: Some(QueryType::Update),
            tag: UpdateQuery,
            bind_vars: self.bind_vars,
            raw_query,
        };
        proof {
            reveal_strlit("FOR item IN @@collection");
            assert(r.frag_seq() =~= self.frag_seq().push("FOR item IN @@collection"@));
        }
        r
    }

    /// Chooses the delete kind: opens the iteration fragment.
    pub fn delete(self) -> (r: ArangoBuilder<DeleteQuery>)
        requires
            self.wf(),
        ensures
            r.q_type() == Some(QueryType::Delete),
            r.frag_seq() == self.frag_seq().push("FOR item IN @@collection"@),
            r.binds() == self.binds(),
            r.wf(),
    {
        let mut raw_query = self.raw_query;
        raw_query.push(String::from_str("FOR item IN @@collection"));
        let r = ArangoBuilder {
            query_type: Some(QueryType::Delete),
            tag: DeleteQuery,
            bind_vars: self.bind_vars,
            raw_query,
        };
        proof {
            reveal_strlit("FOR item IN @@collection");
            assert(r.frag_seq() =~= self.frag_seq().push("FOR item IN @@collection"@));
        }
        r
    }
}

impl<Tag: Limitable> ArangoBuilder<Tag> {
    /// Caps the number of results: overwrites the single reserved `limit`
    /// parameter and leaves the clause fragments untouched, so repeated
    /// calls keep only the last value.
    pub fn limit(self, limit: u64) -> (r: ArangoBuilder<Tag>)
        requires
            self.wf(),
        ensures
            r.q_type() == self.q_type(),
            r.frag_seq() == self.frag_seq(),
            r.binds() == bv_insert(self.binds(), "limit"@, JVal::Int(limit as int)),
            r.wf(),
    {
        let mut bind_vars = self.bind_vars;
        bind_vars.insert(String::from_str("limit"), JsonValue::UInt(limit));
        let r = ArangoBuilder {
            query_type: self.query_type,
            tag: self.tag,
            bind_vars,
            raw_query: self.raw_query,
        };
        proof {
            assert(r.frag_seq() == self.frag_seq());
            reveal_strlit("limit");
            lemma_insert_fixed_keeps_numbered(self.binds(), "limit"@, JVal::Int(limit as int));
        }
        r
    }
}

impl<Tag: Filterable> ArangoBuilder<Tag> {
    /// Opens a filter clause.
    pub fn filter(self) -> (r: ArangoBuilder<Filtering>)
        requires
            self.wf(),
        ensures
            r.q_type() == self.q_type(),
            r.frag_seq() == self.frag_seq().push("FILTER"@),
            r.binds() == self.binds(),
            r.wf(),
    {
        let mut raw_query = self.raw_query;
        raw_query.push(String::from_str("FILTER"));
        let r = ArangoBuilder {
            query_type: self.query_type,
            tag: Filtering,
            bind_vars: self.bind_vars,
            raw_query,
        };
        proof {
            reveal_strlit("FILTER");
            assert(r.frag_seq() =~= self.frag_seq().push("FILTER"@));
        }
        r
    }
}

impl<Tag: Conditionable> ArangoBuilder<Tag> {
    /// Adds a comparison against the opened filter clause: binds the value
    /// under a fresh name derived from the current number of bound
    /// parameters and appends the comparison fragment.
    pub fn condition(self, field: &str, op: CmpOp, value: JsonValue) -> (r: ArangoBuilder<
        Conditional,
    >)
        requires
            self.wf(),
        ensures
            r.q_type() == self.q_type(),
            r.frag_seq() == self.frag_seq().push(
                condition_frag(field@, op, self.binds().len()),
            ),
            r.binds() == bv_insert(
                self.binds(),
                filter_var_chars(self.binds().len()),
                jval_of(value),
            ),
            r.binds().len() == self.binds().len() + 1,
            r.wf(),
    {
        let n = self.bind_vars.len();
        let name = param_name("filterVar", n);
        let mut frag = String::from_str("item.");
        frag.append(field);
        frag.append(" ");
        frag.append(op.symbol());
        frag.append(" @");
        frag.append(name.as_str());
        let mut bind_vars = self.bind_vars;
        bind_vars.insert(name, value);
        let mut raw_query = self.raw_query;
        raw_query.push(frag);
        let r = ArangoBuilder {
            query_type: self.query_type,
            tag: Conditional,
            bind_vars,
            raw_query,
        };
        proof {
            reveal_strlit("item.");
            assert(r.frag_seq() =~= self.frag_seq().push(
                condition_frag(field@, op, self.binds().len()),
            ));
            lemma_insert_numbered_keeps(
                self.binds(),
                filter_var_chars(self.binds().len()),
                jval_of(value),
            );
        }
        r
    }
}

impl<Tag: LogicallyOperatable> ArangoBuilder<Tag> {
    /// Appends the conjunction token; a further condition must follow for
    /// the filter to be well formed, and this state is not buildable.
    pub fn and(self) -> (r: ArangoBuilder<LogicalOperator>)
        requires
            self.wf(),
        ensures
            r.q_type() == self.q_type(),
            r.frag_seq() == self.frag_seq().push("AND"@),
            r.binds() == self.binds(),
            r.wf(),
    {
        let mut raw_query = self.raw_query;
        raw_query.push(String::from_str("AND"));
        let r = ArangoBuilder {
            query_type: self.query_type,
            tag: LogicalOperator,
            bind_vars: self.bind_vars,
            raw_query,
        };
        proof {
            reveal_strlit("AND");
            assert(r.frag_seq() =~= self.frag_seq().push("AND"@));
        }
        r
    }

    /// Appends the disjunction token; as with `and`, a further condition
    /// must follow.
    pub fn or(self) -> (r: ArangoBuilder<LogicalOperator>)
        requires
            self.wf(),
        ensures
            r.q_type() == self.q_type(),
            r.frag_seq() == self.frag_seq().push("OR"@),
            r.binds() == self.binds(),
            r.wf(),
    {
        let mut raw_query = self.raw_query;
        raw_query.push(String::from_str("OR"));
        let r = ArangoBuilder {
            query_type: self.query_type,
            tag: LogicalOperator,
            bind_vars: self.bind_vars,
            raw_query,
        };
        proof {
            reveal_strlit("OR");
            assert(r.frag_seq() =~= self.frag_seq().push("OR"@));
        }
        r
    }
}

impl<Tag: UpdateWith> ArangoBuilder<Tag> {
    /// Sets one field of the matched documents: binds the value under a
    /// fresh name and appends the field-set fragment.
    pub fn set_field(self, field: &str, value: JsonValue) -> (r: ArangoBuilder<UpdateField>)
        requires
            self.wf(),
        ensures
            r.q_type() == self.q_type(),
            r.frag_seq() == self.frag_seq().push(set_field_frag(field@, self.binds().len())),
            r.binds() == bv_insert(
                self.binds(),
                with_var_chars(self.binds().len()),
                jval_of(value),
            ),
            r.binds().len() == self.binds().len() + 1,
            r.wf(),
    {
        let n = self.bind_vars.len();
        let name = param_name("withVar", n);
        let mut frag = String::from_str("UPDATE item WITH { ");
        frag.append(field);
        frag.append(": @");
        frag.append(name.as_str());
        frag.append(" }");
        let mut bind_vars = self.bind_vars;
        bind_vars.insert(name, value);
        let mut raw_query = self.raw_query;
        raw_query.push(frag);
        let r = ArangoBuilder {
            query_type: self.query_type,
            tag: UpdateField,
            bind_vars,
            raw_query,
        };
        proof {
            reveal_strlit("UPDATE item WITH { ");
            assert(r.frag_seq() =~= self.frag_seq().push(
                set_field_frag(field@, self.binds().len()),
            ));
            lemma_insert_numbered_keeps(
                self.binds(),
                with_var_chars(self.binds().len()),
                jval_of(value),
            );
        }
        r
    }

    /// Replaces the whole matched document: binds it under a fresh name
    /// and appends the replacement fragment.
    pub fn replace_with(self, new_item: JsonValue) -> (r: ArangoBuilder<UpdateField>)
        requires
            self.wf(),
        ensures
            r.q_type() == self.q_type(),
            r.frag_seq() == self.frag_seq().push(replace_with_frag(self.binds().len())),
            r.binds() == bv_insert(
                self.binds(),
                with_var_chars(self.binds().len()),
                jval_of(new_item),
            ),
            r.binds().len() == self.binds().len() + 1,
            r.wf(),
    {
        let n = self.bind_vars.len();
        let name = param_name("withVar", n);
        let mut frag = String::from_str("UPDATE item WITH @");
        frag.append(name.as_str());
        let mut bind_vars = self.bind_vars;
        bind_vars.insert(name, new_item);
        let mut raw_query = self.raw_query;
        raw_query.push(frag);
        let r = ArangoBuilder {
            query_type: self.query_type,
            tag: UpdateField,
            bind_vars,
            raw_query,
        };
        proof {
            reveal_strlit("UPDATE item WITH @");
            assert(r.frag_seq() =~= self.frag_seq().push(replace_with_frag(self.binds().len())));
            lemma_insert_numbered_keeps(
                self.binds(),
                with_var_chars(self.binds().len()),
                jval_of(new_item),
            );
        }
        r
    }
}

impl<Tag: Sortable> ArangoBuilder<Tag> {
    /// Adds an ordering over `field`: binds the field name under the
    /// reserved `sort_by` parameter and appends the ordering fragment.
    pub fn sort(self, field: &str, direction: SortingDirection) -> (r: ArangoBuilder<Sorting>)
        requires
            self.wf(),
        ensures
            r.q_type() == self.q_type(),
            r.frag_seq() == self.frag_seq().push(sort_frag(direction)),
            r.binds() == bv_insert(self.binds(), "sort_by"@, JVal::Str(field@)),
            r.wf(),
    {
        let frag = match direction {
            SortingDirection::Asc => "SORT item.@sort_by",
            SortingDirection::Desc => "SORT item.@sort_by DESC",
        };
        let mut bind_vars = self.bind_vars;
        bind_vars.insert(String::from_str("sort_by"), JsonValue::Str(String::from_str(field)));
        let mut raw_query = self.raw_query;
        raw_query.push(String::from_str(frag));
        let r = ArangoBuilder {
            query_type: self.query_type,
            tag: Sorting,
            bind_vars,
            raw_query,
        };
        proof {
            reveal_strlit("SORT item.@sort_by");
            reveal_strlit("SORT item.@sort_by DESC");
            assert(r.frag_seq() =~= self.frag_seq().push(sort_frag(direction)));
            reveal_strlit("sort_by");
            lemma_insert_fixed_keeps_numbered(self.binds(), "sort_by"@, JVal::Str(field@));
        }
        r
    }
}

impl<Tag: Buildable> ArangoBuilder<Tag> {
    /// Finalizes the query: appends the terminal fragment chosen by the
    /// operation kind, joins every fragment followed by a single space,
    /// and packages the text with the bound parameters.
    pub fn build(self) -> (r: ArangoQuery)
        requires
            self.wf(),
            self.q_type() is Some,
        ensures
            r.text() == space_join(self.frag_seq().push(terminal_of(self.q_type()))),
            r.binds() == self.binds(),
            r.batch() is None,
            r.wf(),
    {
        let terminal: &'static str = match self.query_type {
            Some(QueryType::Create) => "INTO @@collection RETURN NEW",
            Some(QueryType::Read) => "LIMIT @limit RETURN item",
            Some(QueryType::Update) => "IN @@collection RETURN NEW",
            Some(QueryType::Delete) => "REMOVE item IN @@collection RETURN OLD",
            None => unreached(),
        };
        let ghost fsv = self.frag_seq();
        let raw_query = self.raw_query;
        let mut text = String::new();
        proof {
            assert(fsv.subrange(0, 0) =~= Seq::<Seq<char>>::empty());
        }
        let mut i: usize = 0;
        while i < raw_query.len()
            invariant
                i <= raw_query.len(),
                fsv == str_views(raw_query@),
                text@ == space_join(fsv.subrange(0, i as int)),
            decreases raw_query.len() - i,
        {
            text.append(raw_query[i].as_str());
            text.append(" ");
            proof {
                reveal_strlit(" ");
                assert(" "@ =~= seq![' ']);
                assert(fsv[i as int] == raw_query@[i as int]@);
                lemma_space_join_push(fsv.subrange(0, i as int), fsv[i as int]);
                assert(fsv.subrange(0, i + 1) =~= fsv.subrange(0, i as int).push(fsv[i as int]));
            }
            i = i + 1;
        }
        proof {
            assert(fsv.subrange(0, raw_query@.len() as int) =~= fsv);
            lemma_space_join_push(fsv, terminal_of(self.q_type()));
            reveal_strlit(" ");
            assert(" "@ =~= seq![' ']);
        }
        text.append(terminal);
        text.append(" ");
        ArangoQuery::raw(text, self.bind_vars)
    }
}

} // verus!
