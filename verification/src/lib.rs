//! Building blocks of a dynamic GraphQL schema and of the API-neutral layer
//! over it: type references, values and their accessors, schema types and
//! their checks, and the names, inputs, filters and mutations that expose
//! database entities.
use vstd::prelude::*;

pub mod accessor;
pub mod builder;
pub mod condition;
pub mod context;
pub mod error;
pub mod filter;
pub mod inputs;
pub mod interface;
pub mod message;
pub mod meta;
pub mod mutation;
pub mod name_map;
pub mod naming;
pub mod object;
pub mod outputs;
pub mod query;
pub mod registry;
pub mod schema;
pub mod sql_value;
pub mod text;
pub mod type_ref;
pub mod value;

verus! {

} // verus!
