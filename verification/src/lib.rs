//! A typestate query builder for an AQL-like document query language.
//!
//! Queries are assembled from a fixed set of operations (create, read,
//! update, delete, filter, compare, combine, limit, sort, set fields).
//! Each operation is a pure transition that consumes a builder value and
//! returns a new one; marker types and capability traits make illegal
//! operation sequences unrepresentable.  The terminal `build` operation
//! produces an immutable query: statement text plus a table of uniquely
//! named bound parameters.

pub mod bind_vars;
pub mod builder;
pub mod collection;
pub mod context;
pub mod document;
pub mod emit;
pub mod laws;
pub mod mock;
pub mod parse;
pub mod schema;
pub mod query;
pub mod text;
pub mod value;
pub mod wire;

pub use bind_vars::BindVars;
pub use builder::ArangoBuilder;
pub use builder::BuilderTag;
pub use builder::Buildable;
pub use builder::Conditionable;
pub use builder::LogicallyOperatable;
pub use builder::Filterable;
pub use builder::Limitable;
pub use builder::UpdateWith;
pub use builder::Sortable;
pub use builder::EmptyBuilder;
pub use builder::CreateQuery;
pub use builder::ReadQuery;
pub use builder::UpdateQuery;
pub use builder::DeleteQuery;
pub use builder::Conditional;
pub use builder::Filtering;
pub use builder::LogicalOperator;
pub use builder::UpdateField;
pub use builder::Sorting;
pub use builder::CmpOp;
pub use builder::QueryType;
pub use builder::SortingDirection;
pub use collection::Collection;
pub use collection::CollectionType;
pub use collection::Insert;
pub use collection::GetAll;
pub use collection::GetByKey;
pub use collection::GetByKeys;
pub use collection::Replace;
pub use collection::Update;
pub use collection::Remove;
pub use collection::Truncate;
pub use context::Context;
pub use document::CollectionMandatory;
pub use document::Edge;
pub use emit::value_to_json_string;
pub use mock::ArangoMock;
pub use schema::ConditionOp;
pub use schema::FieldDef;
pub use schema::FieldKind;
pub use schema::Schema;
pub use schema::SchemaError;
pub use schema::SetFieldOp;
pub use query::ArangoQuery;
pub use query::CursorExtractor;
pub use query::ExecuteArangoQuery;
pub use text::u64_to_dec_string;
pub use value::JVal;
pub use value::JsonValue;
pub use value::clone_value;
