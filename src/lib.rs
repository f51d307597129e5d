//! Parser for a one-line endpoint notation such as
//! `GET /register/{id:string}?type:string&order:string RQ -> RS`.
//!
//! The input is first turned into a tree of syntax nodes ([`Pair`]), each tagged
//! with the grammar rule ([`Rule`]) that produced it; converters then turn the
//! nodes into the typed [`Endpoint`] model.

pub mod model;
pub mod grammar;
pub mod tree;
pub mod convert;
pub mod laws;

pub use tree::{EndpointParser, Pair};

pub use model::{
    Endpoint, Method, ParseError, Path, QueryParam, RequestType, ResponseType, Rule, SyntaxError,
    TypeName, Variable, VariableType,
};

