//! Collections and the fixed single-document query shapes built against
//! them: insert, lookups, replace, update, remove and truncate.

use vstd::prelude::*;
use vstd::string::*;
use crate::bind_vars::{lemma_bv_insert_append, BindVars};
use crate::query::ArangoQuery;
use crate::text::lex_lt;
use crate::value::{jval_of, JVal, JsonValue};

verus! {

/// Whether a collection holds plain documents or edges.
#[derive(Clone, Copy, PartialEq, Eq, Structural, Debug)]
pub enum CollectionType {
    Document,
    Edge,
}

impl CollectionType {
    /// The numeric code the database uses for this collection type.
    pub fn type_code(self) -> (c: u8)
        ensures
            self is Document ==> c == 2,
            self is Edge ==> c == 3,
    {
        match self {
            CollectionType::Document => 2,
            CollectionType::Edge => 3,
        }
    }
}

impl Default for CollectionType {
    /// Plain documents, unless said otherwise.
    fn default() -> (r: Self)
        ensures
            r is Document,
    {
        CollectionType::Document
    }
}

/// A named collection, as the database describes it.
pub struct Collection {
    pub collection_type: CollectionType,
    pub id: String,
    pub name: String,
    pub status: u8,
    pub is_system: bool,
    pub globally_unique_id: String,
}

impl Collection {
    /// A fresh collection handle with the given name and type.
    pub fn new(name: &str, collection_type: CollectionType) -> (r: Self)
        ensures
            r.name@ == name@,
            r.globally_unique_id@ == name@,
            r.id@ == Seq::<char>::empty(),
            r.status == 0,
            !r.is_system,
            r.collection_type == collection_type,
    {
        Self {
            id: String::new(),
            status: 0,
            is_system: false,
            globally_unique_id: String::from_str(name),
            name: String::from_str(name),
            collection_type,
        }
    }
}

/// The parameter table holding only the collection's name.
pub open spec fn coll_binds(name: Seq<char>) -> Seq<(Seq<char>, JVal)> {
    seq![("@collection"@, JVal::Str(name))]
}

/// The parameter table holding the collection's name and one further
/// value.
pub open spec fn coll_binds_with(name: Seq<char>, key: Seq<char>, v: JVal) -> Seq<
    (Seq<char>, JVal),
> {
    seq![("@collection"@, JVal::Str(name)), (key, v)]
}

/// The parameter table holding the collection's name and two further
/// values.
pub open spec fn coll_binds_with2(
    name: Seq<char>,
    key1: Seq<char>,
    v1: JVal,
    key2: Seq<char>,
    v2: JVal,
) -> Seq<(Seq<char>, JVal)> {
    seq![("@collection"@, JVal::Str(name)), (key1, v1), (key2, v2)]
}

/// Builds the table `coll_binds(name)`.
fn make_coll_binds(name: &String) -> (r: BindVars)
    ensures
        r@ == coll_binds(name@),
        r.wf(),
{
    let mut r = BindVars::new();
    r.insert(String::from_str("@collection"), JsonValue::Str(name.clone()));
    proof {
        assert(r@ =~= coll_binds(name@));
    }
    r
}

/// Creating the given document.
pub trait Insert {
    fn insert(&self, elem: JsonValue) -> ArangoQuery;
}

/// Reading every document.
pub trait GetAll {
    fn get_all(&self) -> ArangoQuery;
}

/// Reading the document stored under a key.
pub trait GetByKey {
    fn get_by_key(&self, key: JsonValue) -> ArangoQuery;
}

/// Reading the documents stored under a sequence of keys.
pub trait GetByKeys {
    fn get_by_keys(&self, keys: Vec<JsonValue>) -> ArangoQuery;
}

/// Replacing a document wholesale, addressed by key or by id.
pub trait Replace {
    fn replace(&self, key: JsonValue, elem: JsonValue) -> ArangoQuery;

    fn replace_with_id(&self, id: JsonValue, replace: JsonValue) -> ArangoQuery;
}

/// Updating parts of a document, addressed by key or by id.
pub trait Update {
    fn update(&self, key: JsonValue, update: JsonValue) -> ArangoQuery;

    fn update_with_id(&self, id: JsonValue, update: JsonValue) -> ArangoQuery;
}

/// Removing the document stored under a key.
pub trait Remove {
    fn remove(&self, key: JsonValue) -> ArangoQuery;
}

/// Removing every document.
pub trait Truncate {
    fn truncate(&self) -> ArangoQuery;
}

impl Insert for Collection {
    /// `INSERT` of the document, bound under `value`.
    fn insert(&self, elem: JsonValue) -> (r: ArangoQuery)
        ensures
            r.text() == "INSERT @value INTO @@collection RETURN NEW"@,
            r.binds() == coll_binds_with(self.name@, "value"@, jval_of(elem)),
            r.batch() is None,
            r.wf(),
    {
        let mut bind_vars = make_coll_binds(&self.name);
        proof {
            reveal_strlit("@collection");
            reveal_strlit("value");
            assert(lex_lt("@collection"@, "value"@));
            lemma_bv_insert_append(bind_vars@, "value"@, jval_of(elem));
        }
        bind_vars.insert(String::from_str("value"), elem);
        proof {
            assert(bind_vars@ =~= coll_binds_with(self.name@, "value"@, jval_of(elem)));
        }
        ArangoQuery::with_bind_vars("INSERT @value INTO @@collection RETURN NEW", bind_vars)
    }
}

impl GetAll for Collection {
    /// Iterating the collection and returning every document.
    fn get_all(&self) -> (r: ArangoQuery)
        ensures
            r.text() == "FOR item in @@collection RETURN item"@,
            r.binds() == coll_binds(self.name@),
            r.batch() is None,
            r.wf(),
    {
        let bind_vars = make_coll_binds(&self.name);
        ArangoQuery::with_bind_vars("FOR item in @@collection RETURN item", bind_vars)
    }
}

impl GetByKey for Collection {
    /// A document lookup, the key bound under `key`.
    fn get_by_key(&self, key: JsonValue) -> (r: ArangoQuery)
        ensures
            r.text() == "RETURN DOCUMENT(@@collection, @key)"@,
            r.binds() == coll_binds_with(self.name@, "key"@, jval_of(key)),
            r.batch() is None,
            r.wf(),
    {
        let mut bind_vars = make_coll_binds(&self.name);
        proof {
            reveal_strlit("@collection");
            reveal_strlit("key");
            assert(lex_lt("@collection"@, "key"@));
            lemma_bv_insert_append(bind_vars@, "key"@, jval_of(key));
        }
        bind_vars.insert(String::from_str("key"), key);
        proof {
            assert(bind_vars@ =~= coll_binds_with(self.name@, "key"@, jval_of(key)));
        }
        ArangoQuery::with_bind_vars("RETURN DOCUMENT(@@collection, @key)", bind_vars)
    }
}

impl GetByKeys for Collection {
    /// A multi-document lookup, the keys bound under `keys` as one array.
    fn get_by_keys(&self, keys: Vec<JsonValue>) -> (r: ArangoQuery)
        ensures
            r.text() == "RETURN DOCUMENT(@@collection, @keys)"@,
            r.binds() == coll_binds_with(
                self.name@,
                "keys"@,
                jval_of(JsonValue::Array(keys)),
            ),
            r.batch() is None,
            r.wf(),
    {
        let mut bind_vars = make_coll_binds(&self.name);
        let val = JsonValue::Array(keys);
        proof {
            reveal_strlit("@collection");
            reveal_strlit("keys");
            assert(lex_lt("@collection"@, "keys"@));
            lemma_bv_insert_append(bind_vars@, "keys"@, jval_of(val));
        }
        let ghost gv = jval_of(val);
        bind_vars.insert(String::from_str("keys"), val);
        proof {
            assert(bind_vars@ =~= coll_binds_with(self.name@, "keys"@, gv));
        }
        ArangoQuery::with_bind_vars("RETURN DOCUMENT(@@collection, @keys)", bind_vars)
    }
}

impl Replace for Collection {
    /// Replacement by key: the new document bound under `elem`, the key
    /// under `key`.
    fn replace(&self, key: JsonValue, elem: JsonValue) -> (r: ArangoQuery)
        ensures
            r.text() == "REPLACE @key WITH @elem IN @@collection RETURN NEW"@,
            r.binds() == coll_binds_with2(
                self.name@,
                "elem"@,
                jval_of(elem),
                "key"@,
                jval_of(key),
            ),
            r.batch() is None,
            r.wf(),
    {
        let mut bind_vars = make_coll_binds(&self.name);
        proof {
            reveal_strlit("@collection");
            reveal_strlit("elem");
            reveal_strlit("key");
            assert(lex_lt("@collection"@, "elem"@));
            assert(lex_lt("elem"@, "key"@));
            lemma_bv_insert_append(bind_vars@, "elem"@, jval_of(elem));
        }
        let ghost ge = jval_of(elem);
        let ghost gk = jval_of(key);
        bind_vars.insert(String::from_str("elem"), elem);
        proof {
            lemma_bv_insert_append(bind_vars@, "key"@, gk);
        }
        bind_vars.insert(String::from_str("key"), key);
        proof {
            assert(bind_vars@ =~= coll_binds_with2(self.name@, "elem"@, ge, "key"@, gk));
        }
        ArangoQuery::with_bind_vars("REPLACE @key WITH @elem IN @@collection RETURN NEW", bind_vars)
    }

    /// Replacement by id: the document resolved first, the new one bound
    /// under `replace`.
    fn replace_with_id(&self, id: JsonValue, replace: JsonValue) -> (r: ArangoQuery)
        ensures
            r.text() == "LET doc = DOCUMENT(@id) REPLACE doc WITH @replace IN @@collection RETURN NEW"@,
            r.binds() == coll_binds_with2(
                self.name@,
                "id"@,
                jval_of(id),
                "replace"@,
                jval_of(replace),
            ),
            r.batch() is None,
            r.wf(),
    {
        let mut bind_vars = make_coll_binds(&self.name);
        proof {
            reveal_strlit("@collection");
            reveal_strlit("id");
            reveal_strlit("replace");
            assert(lex_lt("@collection"@, "id"@));
            assert(lex_lt("id"@, "replace"@));
            lemma_bv_insert_append(bind_vars@, "id"@, jval_of(id));
        }
        let ghost gi = jval_of(id);
        let ghost gr = jval_of(replace);
        bind_vars.insert(String::from_str("id"), id);
        proof {
            lemma_bv_insert_append(bind_vars@, "replace"@, gr);
        }
        bind_vars.insert(String::from_str("replace"), replace);
        proof {
            assert(bind_vars@ =~= coll_binds_with2(self.name@, "id"@, gi, "replace"@, gr));
        }
        ArangoQuery::with_bind_vars(
            "LET doc = DOCUMENT(@id) REPLACE doc WITH @replace IN @@collection RETURN NEW",
            bind_vars,
        )
    }
}

impl Update for Collection {
    /// Partial update by key: the changes bound under `update`, the key
    /// under `key`.
    fn update(&self, key: JsonValue, update: JsonValue) -> (r: ArangoQuery)
        ensures
            r.text() == "UPDATE @key WITH @update IN @@collection RETURN NEW"@,
            r.binds() == coll_binds_with2(
                self.name@,
                "key"@,
                jval_of(key),
                "update"@,
                jval_of(update),
            ),
            r.batch() is None,
            r.wf(),
    {
        let mut bind_vars = make_coll_binds(&self.name);
        proof {
            reveal_strlit("@collection");
            reveal_strlit("key");
            reveal_strlit("update");
            assert(lex_lt("@collection"@, "key"@));
            assert(lex_lt("key"@, "update"@));
            lemma_bv_insert_append(bind_vars@, "key"@, jval_of(key));
        }
        let ghost gk = jval_of(key);
        let ghost gu = jval_of(update);
        bind_vars.insert(String::from_str("key"), key);
        proof {
            lemma_bv_insert_append(bind_vars@, "update"@, gu);
        }
        bind_vars.insert(String::from_str("update"), update);
        proof {
            assert(bind_vars@ =~= coll_binds_with2(self.name@, "key"@, gk, "update"@, gu));
        }
        ArangoQuery::with_bind_vars("UPDATE @key WITH @update IN @@collection RETURN NEW", bind_vars)
    }

    /// Partial update by id: the document resolved first, the changes
    /// bound under `update`.
    fn update_with_id(&self, id: JsonValue, update: JsonValue) -> (r: ArangoQuery)
        ensures
            r.text() == "LET doc = DOCUMENT(@id) UPDATE doc WITH @update IN @@collection RETURN NEW"@,
            r.binds() == coll_binds_with2(
                self.name@,
                "id"@,
                jval_of(id),
                "update"@,
                jval_of(update),
            ),
            r.batch() is None,
            r.wf(),
    {
        let mut bind_vars = make_coll_binds(&self.name);
        proof {
            reveal_strlit("@collection");
            reveal_strlit("id");
            reveal_strlit("update");
            assert(lex_lt("@collection"@, "id"@));
            assert(lex_lt("id"@, "update"@));
            lemma_bv_insert_append(bind_vars@, "id"@, jval_of(id));
        }
        let ghost gi = jval_of(id);
        let ghost gu = jval_of(update);
        bind_vars.insert(String::from_str("id"), id);
        proof {
            lemma_bv_insert_append(bind_vars@, "update"@, gu);
        }
        bind_vars.insert(String::from_str("update"), update);
        proof {
            assert(bind_vars@ =~= coll_binds_with2(self.name@, "id"@, gi, "update"@, gu));
        }
        ArangoQuery::with_bind_vars(
            "LET doc = DOCUMENT(@id) UPDATE doc WITH @update IN @@collection RETURN NEW",
            bind_vars,
        )
    }
}

impl Remove for Collection {
    /// Removal by key, returning the removed document.
    fn remove(&self, key: JsonValue) -> (r: ArangoQuery)
        ensures
            r.text() == "REMOVE @key IN @@collection RETURN OLD"@,
            r.binds() == coll_binds_with(self.name@, "key"@, jval_of(key)),
            r.batch() is None,
            r.wf(),
    {
        let mut bind_vars = make_coll_binds(&self.name);
        proof {
            reveal_strlit("@collection");
            reveal_strlit("key");
            assert(lex_lt("@collection"@, "key"@));
            lemma_bv_insert_append(bind_vars@, "key"@, jval_of(key));
        }
        let ghost gk = jval_of(key);
        bind_vars.insert(String::from_str("key"), key);
        proof {
            assert(bind_vars@ =~= coll_binds_with(self.name@, "key"@, gk));
        }
        ArangoQuery::with_bind_vars("REMOVE @key IN @@collection RETURN OLD", bind_vars)
    }
}

impl Truncate for Collection {
    /// Removal of every document of the collection.
    fn truncate(&self) -> (r: ArangoQuery)
        ensures
            r.text() == "FOR item IN @@collection REMOVE item IN @@collection"@,
            r.binds() == coll_binds(self.name@),
            r.batch() is None,
            r.wf(),
    {
        let bind_vars = make_coll_binds(&self.name);
        ArangoQuery::with_bind_vars("FOR item IN @@collection REMOVE item IN @@collection", bind_vars)
    }
}

} // verus!
