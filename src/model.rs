//! The endpoint model, its error type, and their mathematical views.
use vstd::prelude::*;

verus! {

/// Name of a request or response payload type.
pub type TypeName = String;

/// The grammar rules; every syntax node is tagged with one of them.
#[allow(non_camel_case_types)]
#[derive(Debug, Clone, Copy, PartialEq, Eq, Structural)]
pub enum Rule {
    endpoint,
    method,
    path,
    segment,
    variable,
    name,
    variable_type,
    query_params,
    request_type,
    response_type,
}

/// Where the input stopped matching the grammar, and which rule was expected there.
#[derive(Debug, Clone, Copy, PartialEq, Eq, Structural)]
pub struct SyntaxError {
    pub position: usize,
    pub expected: Rule,
}

#[derive(Debug, Clone, Copy, PartialEq, Eq, Structural)]
pub enum ParseError {
    /// A converter was handed a node of another rule.
    UnexpectRule,
    /// A variable type token is not one of the recognized type names.
    UnsupportType,
    /// The input does not match the grammar.
    Syntax(SyntaxError),
}

#[derive(Debug, Clone, Copy, PartialEq, Eq, PartialOrd, Structural)]
pub enum Method {
    GET,
    POST,
    PUT,
    DELETE,
}

#[derive(Debug, Clone, Copy, PartialEq, Eq, PartialOrd, Structural)]
pub enum VariableType {
    String,
    Short,
    Int,
    Long,
    Float,
    Double,
    Bool,
}

/// A named, typed value: a query parameter or the body of a path variable.
#[derive(Debug, PartialEq, PartialOrd)]
pub struct Variable(pub String, pub VariableType);

#[derive(Debug)]
pub struct QueryParam(pub String, pub VariableType);

#[derive(Debug, PartialEq, PartialOrd)]
pub enum Path {
    Segment(String),
    Variable(String, VariableType),
}

#[derive(Debug)]
pub struct RequestType(pub String);

#[derive(Debug)]
pub struct ResponseType(pub String);

#[derive(Debug, PartialEq, PartialOrd)]
pub struct Endpoint {
    pub method: Method,
    pub path: Vec<Path>,
    pub query_params: Vec<Variable>,
    pub request_type: Option<TypeName>,
    pub response_type: Option<TypeName>,
}

pub struct VariableView {
    pub name: Seq<char>,
    pub ty: VariableType,
}

pub enum PathView {
    Segment(Seq<char>),
    Variable(Seq<char>, VariableType),
}

pub struct EndpointView {
    pub method: Method,
    pub path: Seq<PathView>,
    pub query_params: Seq<VariableView>,
    pub request_type: Option<Seq<char>>,
    pub response_type: Option<Seq<char>>,
}

impl View for Variable {
    type V = VariableView;

    open spec fn view(&self) -> VariableView {
        VariableView { name: self.0@, ty: self.1 }
    }
}

impl View for Path {
    type V = PathView;

    open spec fn view(&self) -> PathView {
        match self {
            Path::Segment(s) => PathView::Segment(s@),
            Path::Variable(n, t) => PathView::Variable(n@, *t),
        }
    }
}

pub open spec fn name_view(o: Option<String>) -> Option<Seq<char>> {
    match o {
        Some(s) => Some(s@),
        None => None,
    }
}

impl View for Endpoint {
    type V = EndpointView;

    open spec fn view(&self) -> EndpointView {
        EndpointView {
            method: self.method,
            path: self.path@.map_values(|p: Path| p@),
            query_params: self.query_params@.map_values(|v: Variable| v@),
            request_type: name_view(self.request_type),
            response_type: name_view(self.response_type),
        }
    }
}

} // verus!
