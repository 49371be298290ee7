//! The bound-parameter table: parameter names mapped to values, kept
//! sorted by name so that the table has exactly one entry per name and a
//! canonical order for wire output.

use vstd::prelude::*;
use crate::text::{lex_lt, lemma_lex_lt_irrefl, lemma_lex_lt_total, lemma_lex_lt_trans, str_lt};
use crate::value::{jprops_of, jval_of, lemma_jprops_of, JVal, JsonValue};

verus! {

/// The names in the table are strictly increasing, so every name occurs at
/// most once.
pub open spec fn keys_sorted(s: Seq<(Seq<char>, JVal)>) -> bool {
    forall|i: int, j: int| 0 <= i < j < s.len() ==> lex_lt(s[i].0, s[j].0)
}

/// Binding a name in a sorted table: an existing entry under the same name
/// is replaced, otherwise the new entry is placed at its ordered position.
pub open spec fn bv_insert(s: Seq<(Seq<char>, JVal)>, k: Seq<char>, v: JVal) -> Seq<
    (Seq<char>, JVal),
>
    decreases s.len(),
{
    if s.len() == 0 {
        seq![(k, v)]
    } else if lex_lt(k, s[0].0) {
        seq![(k, v)] + s
    } else if k == s[0].0 {
        seq![(k, v)] + s.drop_first()
    } else {
        seq![s[0]] + bv_insert(s.drop_first(), k, v)
    }
}

/// Every name in the new table is the inserted name or one of the old
/// names, and the inserted name is present.
pub proof fn lemma_bv_insert_keys(s: Seq<(Seq<char>, JVal)>, k: Seq<char>, v: JVal)
    ensures
        forall|j: int|
            0 <= j < bv_insert(s, k, v).len() ==> bv_insert(s, k, v)[j].0 == k || exists|i: int|
                0 <= i < s.len() && s[i].0 == #[trigger] bv_insert(s, k, v)[j].0,
    decreases s.len(),
{
    let r = bv_insert(s, k, v);
    if s.len() == 0 {
    } else if lex_lt(k, s[0].0) {
        assert forall|j: int| 0 <= j < r.len() implies r[j].0 == k || exists|i: int|
            0 <= i < s.len() && s[i].0 == #[trigger] r[j].0 by {
            if j > 0 {
                assert(s[j - 1].0 == r[j].0);
            }
        }
    } else if k == s[0].0 {
        assert forall|j: int| 0 <= j < r.len() implies r[j].0 == k || exists|i: int|
            0 <= i < s.len() && s[i].0 == #[trigger] r[j].0 by {
            if j > 0 {
                assert(s[j].0 == r[j].0);
            }
        }
    } else {
        lemma_bv_insert_keys(s.drop_first(), k, v);
        let rt = bv_insert(s.drop_first(), k, v);
        assert forall|j: int| 0 <= j < r.len() implies r[j].0 == k || exists|i: int|
            0 <= i < s.len() && s[i].0 == #[trigger] r[j].0 by {
            if j == 0 {
                assert(s[0].0 == r[0].0);
            } else {
                assert(r[j] == rt[j - 1]);
                if rt[j - 1].0 != k {
                    let i = choose|i: int|
                        0 <= i < s.drop_first().len() && s.drop_first()[i].0 == rt[j - 1].0;
                    assert(s[i + 1].0 == r[j].0);
                }
            }
        }
    }
}

/// Binding a name keeps the table sorted.
pub proof fn lemma_bv_insert_sorted(s: Seq<(Seq<char>, JVal)>, k: Seq<char>, v: JVal)
    requires
        keys_sorted(s),
    ensures
        keys_sorted(bv_insert(s, k, v)),
    decreases s.len(),
{
    let r = bv_insert(s, k, v);
    if s.len() == 0 {
    } else if lex_lt(k, s[0].0) {
        assert forall|i: int, j: int| 0 <= i < j < r.len() implies lex_lt(r[i].0, r[j].0) by {
            if i == 0 {
                if j > 1 {
                    lemma_lex_lt_trans(k, s[0].0, s[j - 1].0);
                }
            } else {
                assert(r[i] == s[i - 1] && r[j] == s[j - 1]);
            }
        }
    } else if k == s[0].0 {
        assert forall|i: int, j: int| 0 <= i < j < r.len() implies lex_lt(r[i].0, r[j].0) by {
            if i == 0 {
                assert(r[j] == s[j]);
            } else {
                assert(r[i] == s[i] && r[j] == s[j]);
            }
        }
    } else {
        lemma_lex_lt_total(k, s[0].0);
        assert(lex_lt(s[0].0, k));
        assert(keys_sorted(s.drop_first())) by {
            assert forall|i: int, j: int|
                0 <= i < j < s.drop_first().len() implies lex_lt(
                s.drop_first()[i].0,
                s.drop_first()[j].0,
            ) by {
                assert(s.drop_first()[i] == s[i + 1] && s.drop_first()[j] == s[j + 1]);
            }
        }
        lemma_bv_insert_sorted(s.drop_first(), k, v);
        lemma_bv_insert_keys(s.drop_first(), k, v);
        let rt = bv_insert(s.drop_first(), k, v);
        assert forall|i: int, j: int| 0 <= i < j < r.len() implies lex_lt(r[i].0, r[j].0) by {
            if i == 0 {
                assert(r[j] == rt[j - 1]);
                if rt[j - 1].0 == k {
                } else {
                    let m = choose|m: int|
                        0 <= m < s.drop_first().len() && s.drop_first()[m].0 == rt[j - 1].0;
                    assert(s.drop_first()[m] == s[m + 1]);
                    assert(lex_lt(s[0].0, s[m + 1].0));
                }
            } else {
                assert(r[i] == rt[i - 1] && r[j] == rt[j - 1]);
            }
        }
    }
}

/// Where the insertion lands: at the first position whose name is not
/// below the inserted name, replacing it on an exact name match.
pub proof fn lemma_bv_insert_at(s: Seq<(Seq<char>, JVal)>, k: Seq<char>, v: JVal, i: int)
    requires
        keys_sorted(s),
        0 <= i <= s.len(),
        forall|j: int| 0 <= j < i ==> lex_lt(#[trigger] s[j].0, k),
        i < s.len() ==> !lex_lt(s[i].0, k),
    ensures
        bv_insert(s, k, v) == if i < s.len() && s[i].0 == k {
            s.update(i, (k, v))
        } else {
            s.insert(i, (k, v))
        },
    decreases s.len(),
{
    let r = bv_insert(s, k, v);
    if s.len() == 0 {
        assert(r =~= s.insert(0, (k, v)));
    } else if i == 0 {
        if s[0].0 == k {
            lemma_lex_lt_irrefl(k);
            assert(r =~= s.update(0, (k, v)));
        } else {
            lemma_lex_lt_total(k, s[0].0);
            assert(lex_lt(k, s[0].0));
            assert(r =~= s.insert(0, (k, v)));
        }
    } else {
        assert(lex_lt(s[0].0, k));
        lemma_lex_lt_irrefl(s[0].0);
        if lex_lt(k, s[0].0) {
            lemma_lex_lt_trans(s[0].0, k, s[0].0);
        }
        assert(s[0].0 != k);
        let t = s.drop_first();
        assert(keys_sorted(t)) by {
            assert forall|p: int, q: int| 0 <= p < q < t.len() implies lex_lt(t[p].0, t[q].0) by {
                assert(t[p] == s[p + 1] && t[q] == s[q + 1]);
            }
        }
        assert forall|j: int| 0 <= j < i - 1 implies lex_lt(#[trigger] t[j].0, k) by {
            assert(t[j] == s[j + 1]);
        }
        assert(i - 1 < t.len() ==> !lex_lt(t[i - 1].0, k)) by {
            if i - 1 < t.len() {
                assert(t[i - 1] == s[i]);
            }
        }
        lemma_bv_insert_at(t, k, v, i - 1);
        if i < s.len() && s[i].0 == k {
            assert(t[i - 1] == s[i]);
            assert(r =~= s.update(i, (k, v)));
        } else {
            assert(r =~= s.insert(i, (k, v)));
        }
    }
}

/// Binding the same name twice keeps only the second value: the table
/// after binding `k` to `a` and then to `b` is the table after binding `k`
/// to `b` alone.
pub proof fn lemma_bv_insert_overwrite(
    s: Seq<(Seq<char>, JVal)>,
    k: Seq<char>,
    a: JVal,
    b: JVal,
)
    ensures
        bv_insert(bv_insert(s, k, a), k, b) == bv_insert(s, k, b),
    decreases s.len(),
{
    lemma_lex_lt_irrefl(k);
    if s.len() == 0 {
        assert(bv_insert(bv_insert(s, k, a), k, b) =~= bv_insert(s, k, b));
    } else if lex_lt(k, s[0].0) {
        let m = seq![(k, a)] + s;
        assert(m[0] == (k, a));
        assert(bv_insert(m, k, b) == seq![(k, b)] + m.drop_first());
        assert(m.drop_first() =~= s);
        assert(bv_insert(bv_insert(s, k, a), k, b) =~= bv_insert(s, k, b));
    } else if k == s[0].0 {
        let m = seq![(k, a)] + s.drop_first();
        assert(m[0] == (k, a));
        assert(bv_insert(m, k, b) == seq![(k, b)] + m.drop_first());
        assert(m.drop_first() =~= s.drop_first());
        assert(bv_insert(bv_insert(s, k, a), k, b) =~= bv_insert(s, k, b));
    } else {
        let m = seq![s[0]] + bv_insert(s.drop_first(), k, a);
        assert(m[0] == s[0]);
        assert(m.drop_first() =~= bv_insert(s.drop_first(), k, a));
        lemma_bv_insert_overwrite(s.drop_first(), k, a, b);
        assert(bv_insert(m, k, b) == seq![s[0]] + bv_insert(m.drop_first(), k, b));
        assert(bv_insert(bv_insert(s, k, a), k, b) =~= bv_insert(s, k, b));
    }
}

/// Binding a name above every present name appends the entry.
pub proof fn lemma_bv_insert_append(s: Seq<(Seq<char>, JVal)>, k: Seq<char>, v: JVal)
    requires
        keys_sorted(s),
        s.len() > 0 ==> lex_lt(s.last().0, k),
    ensures
        bv_insert(s, k, v) == s.push((k, v)),
    decreases s.len(),
{
    if s.len() == 0 {
        assert(bv_insert(s, k, v) =~= s.push((k, v)));
    } else {
        assert(lex_lt(s[0].0, k)) by {
            if s.len() > 1 {
                assert(lex_lt(s[0].0, s.last().0));
                lemma_lex_lt_trans(s[0].0, s.last().0, k);
            }
        }
        lemma_lex_lt_irrefl(s[0].0);
        if lex_lt(k, s[0].0) {
            lemma_lex_lt_trans(s[0].0, k, s[0].0);
        }
        assert(k != s[0].0);
        let t = s.drop_first();
        assert(keys_sorted(t)) by {
            assert forall|p: int, q: int| 0 <= p < q < t.len() implies lex_lt(t[p].0, t[q].0) by {
                assert(t[p] == s[p + 1] && t[q] == s[q + 1]);
            }
        }
        if t.len() > 0 {
            assert(t.last() == s.last());
        }
        lemma_bv_insert_append(t, k, v);
        assert(bv_insert(s, k, v) =~= s.push((k, v)));
    }
}

/// Binding a name grows the table by at most one entry.
pub proof fn lemma_bv_insert_len(s: Seq<(Seq<char>, JVal)>, k: Seq<char>, v: JVal)
    ensures
        s.len() <= bv_insert(s, k, v).len() <= s.len() + 1,
    decreases s.len(),
{
    if s.len() > 0 && !lex_lt(k, s[0].0) && k != s[0].0 {
        lemma_bv_insert_len(s.drop_first(), k, v);
    }
}

/// Binding a name not yet present grows the table by exactly one entry.
pub proof fn lemma_bv_insert_fresh_len(s: Seq<(Seq<char>, JVal)>, k: Seq<char>, v: JVal)
    requires
        forall|i: int| 0 <= i < s.len() ==> (#[trigger] s[i]).0 != k,
    ensures
        bv_insert(s, k, v).len() == s.len() + 1,
    decreases s.len(),
{
    if s.len() > 0 && !lex_lt(k, s[0].0) && k != s[0].0 {
        assert forall|i: int| 0 <= i < s.drop_first().len() implies (#[trigger] s.drop_first()[i]).0
            != k by {
            assert(s.drop_first()[i] == s[i + 1]);
        }
        lemma_bv_insert_fresh_len(s.drop_first(), k, v);
    }
}

/// A table whose every adjacent pair is ordered is sorted throughout.
pub proof fn lemma_adjacent_sorted(s: Seq<(Seq<char>, JVal)>)
    requires
        forall|j: int| 0 <= j < s.len() - 1 ==> lex_lt(#[trigger] s[j].0, s[j + 1].0),
    ensures
        keys_sorted(s),
{
    assert forall|i: int, j: int| 0 <= i < j < s.len() implies lex_lt(s[i].0, s[j].0) by {
        lemma_chain_sorted(s, i, j);
    }
}

/// Ordered adjacent pairs chain into an order between any two positions.
proof fn lemma_chain_sorted(s: Seq<(Seq<char>, JVal)>, i: int, j: int)
    requires
        forall|k: int| 0 <= k < s.len() - 1 ==> lex_lt(#[trigger] s[k].0, s[k + 1].0),
        0 <= i < j < s.len(),
    ensures
        lex_lt(s[i].0, s[j].0),
    decreases j - i,
{
    if j == i + 1 {
    } else {
        lemma_chain_sorted(s, i, j - 1);
        lemma_lex_lt_trans(s[i].0, s[j - 1].0, s[j].0);
    }
}

/// In a sorted table every name is bound at most once.
pub proof fn lemma_sorted_keys_unique(s: Seq<(Seq<char>, JVal)>)
    requires
        keys_sorted(s),
    ensures
        forall|i: int, j: int|
            0 <= i < s.len() && 0 <= j < s.len() && i != j ==> #[trigger] s[i].0 != #[trigger] s[j].0,
{
    assert forall|i: int, j: int|
        0 <= i < s.len() && 0 <= j < s.len() && i != j implies #[trigger] s[i].0 != #[trigger] s[j].0 by {
        if i < j {
            lemma_lex_lt_irrefl(s[i].0);
        } else {
            lemma_lex_lt_irrefl(s[j].0);
        }
    }
}

/// The bound-parameter table of one query: a vector of (name, value)
/// entries kept strictly sorted by name.
pub struct BindVars {
    pairs: Vec<(String, JsonValue)>,
}

impl View for BindVars {
    type V = Seq<(Seq<char>, JVal)>;

    closed spec fn view(&self) -> Seq<(Seq<char>, JVal)> {
        jprops_of(self.pairs@)
    }
}

impl BindVars {
    /// Whether the table is sorted; all tables this crate builds are.
    pub open spec fn wf(&self) -> bool {
        keys_sorted(self@)
    }

    /// The empty table.
    pub fn new() -> (r: BindVars)
        ensures
            r@ == Seq::<(Seq<char>, JVal)>::empty(),
            r.wf(),
    {
        let r = BindVars { pairs: Vec::new() };
        proof {
            assert(r@ =~= Seq::<(Seq<char>, JVal)>::empty());
        }
        r
    }

    /// How many parameters are bound.
    pub fn len(&self) -> (n: usize)
        ensures
            n == self@.len(),
    {
        proof {
            lemma_jprops_of(self.pairs@);
        }
        self.pairs.len()
    }

    /// Whether the table is empty.
    pub fn is_empty(&self) -> (r: bool)
        ensures
            r == (self@.len() == 0),
    {
        proof {
            lemma_jprops_of(self.pairs@);
        }
        self.pairs.is_empty()
    }

    /// The underlying ordered entries.
    pub(crate) fn entries(&self) -> (r: &Vec<(String, JsonValue)>)
        ensures
            jprops_of(r@) == self@,
    {
        &self.pairs
    }

    /// The ordered entries, surrendered.
    pub fn into_entries(self) -> (r: Vec<(String, JsonValue)>)
        ensures
            jprops_of(r@) == self@,
    {
        self.pairs
    }

    /// A table built from entries already in strictly increasing name
    /// order; entries out of order are refused.
    pub fn from_sorted_entries(pairs: Vec<(String, JsonValue)>) -> (r: Option<BindVars>)
        ensures
            r is Some <==> keys_sorted(jprops_of(pairs@)),
            r is Some ==> r->0@ == jprops_of(pairs@) && r->0.wf(),
    {
        proof {
            lemma_jprops_of(pairs@);
        }
        let ghost view = jprops_of(pairs@);
        if pairs.len() > 0 {
            let mut i: usize = 0;
            while i + 1 < pairs.len()
                invariant
                    pairs@.len() > 0,
                    i < pairs@.len(),
                    view == jprops_of(pairs@),
                    view.len() == pairs@.len(),
                    forall|j: int| 0 <= j < i ==> lex_lt(#[trigger] view[j].0, view[j + 1].0),
                decreases pairs.len() - i,
            {
                proof {
                    lemma_jprops_of(pairs@);
                }
                if !str_lt(pairs[i].0.as_str(), pairs[i + 1].0.as_str()) {
                    proof {
                        lemma_lex_lt_irrefl(view[i as int].0);
                        if keys_sorted(view) {
                            assert(lex_lt(view[i as int].0, view[i + 1].0));
                        }
                    }
                    return None;
                }
                i = i + 1;
            }
            proof {
                lemma_adjacent_sorted(view);
            }
        }
        proof {
            if pairs@.len() == 0 {
                assert(keys_sorted(view));
            }
        }
        Some(BindVars { pairs })
    }

    /// Binds `key` to `val`, replacing any existing binding of `key`.
    pub fn insert(&mut self, key: String, val: JsonValue)
        requires
            old(self).wf(),
        ensures
            final(self)@ == bv_insert(old(self)@, key@, jval_of(val)),
            final(self).wf(),
    {
        let ghost p0 = self.pairs@;
        let ghost s0 = self@;
        let ghost gk = key@;
        let ghost gv = jval_of(val);
        proof {
            lemma_jprops_of(p0);
        }
        let mut i: usize = 0;
        while i < self.pairs.len() && str_lt(self.pairs[i].0.as_str(), key.as_str())
            invariant
                i <= self.pairs.len(),
                self.pairs@ == p0,
                s0 == jprops_of(p0),
                key@ == gk,
                forall|j: int| 0 <= j < i ==> lex_lt(#[trigger] s0[j].0, gk),
            decreases self.pairs.len() - i,
        {
            proof {
                lemma_jprops_of(p0);
            }
            i = i + 1;
        }
        proof {
            lemma_jprops_of(p0);
            lemma_bv_insert_sorted(s0, gk, gv);
        }
        if i < self.pairs.len() && self.pairs[i].0 == key {
            self.pairs[i] = (key, val);
            proof {
                lemma_bv_insert_at(s0, gk, gv, i as int);
                lemma_jprops_of(self.pairs@);
                assert(self@ =~= s0.update(i as int, (gk, gv)));
            }
        } else {
            self.pairs.insert(i, (key, val));
            proof {
                lemma_bv_insert_at(s0, gk, gv, i as int);
                p0.insert_ensures(i as int, self.pairs@[i as int]);
                s0.insert_ensures(i as int, (gk, gv));
                lemma_jprops_of(self.pairs@);
                assert(self@ =~= s0.insert(i as int, (gk, gv)));
            }
        }
    }
}

} // verus!
