//! Converters from syntax nodes to the endpoint model.
//!
//! Every converter first checks the node's rule and fails with
//! `ParseError::UnexpectRule` on a node of another rule.
use vstd::prelude::*;
use crate::grammar::{endpoint_syntax, method_from, method_of, type_from, type_of, RawEndpoint, RawPathItem, RawVariable};
use crate::model::{
    Endpoint, EndpointView, Method, ParseError, Path, PathView, RequestType, ResponseType, Rule,
    Variable, VariableType, VariableView,
};
use crate::tree::{
    endpoint_raw, path_item_raw, path_item_wf, path_items_raw, path_items_wf, variable_raw,
    variable_wf, variables_raw, variables_wf, EndpointParser, Pair,
};

verus! {

pub open spec fn convert_type(t: Seq<char>) -> Result<VariableType, ParseError> {
    match type_of(t) {
        Some(ty) => Ok(ty),
        None => Err(ParseError::UnsupportType),
    }
}

pub open spec fn convert_variable(v: RawVariable) -> Result<VariableView, ParseError> {
    match convert_type(v.ty) {
        Ok(ty) => Ok(VariableView { name: v.name, ty }),
        Err(e) => Err(e),
    }
}

pub open spec fn convert_path_item(item: RawPathItem) -> Result<PathView, ParseError> {
    match item {
        RawPathItem::Segment(s) => Ok(PathView::Segment(s)),
        RawPathItem::Variable(v) => match convert_variable(v) {
            Ok(x) => Ok(PathView::Variable(x.name, x.ty)),
            Err(e) => Err(e),
        },
    }
}

/// Each component converted in order; the first failure is the result.
pub open spec fn convert_path(items: Seq<RawPathItem>) -> Result<Seq<PathView>, ParseError>
    decreases items.len(),
{
    if items.len() == 0 {
        Ok(Seq::empty())
    } else {
        match convert_path(items.drop_last()) {
            Err(e) => Err(e),
            Ok(xs) => match convert_path_item(items.last()) {
                Err(e) => Err(e),
                Ok(x) => Ok(xs.push(x)),
            },
        }
    }
}

/// Each variable converted in order; the first failure is the result.
pub open spec fn convert_variables(vs: Seq<RawVariable>) -> Result<Seq<VariableView>, ParseError>
    decreases vs.len(),
{
    if vs.len() == 0 {
        Ok(Seq::empty())
    } else {
        match convert_variables(vs.drop_last()) {
            Err(e) => Err(e),
            Ok(xs) => match convert_variable(vs.last()) {
                Err(e) => Err(e),
                Ok(x) => Ok(xs.push(x)),
            },
        }
    }
}

pub open spec fn convert_endpoint(raw: RawEndpoint) -> Result<EndpointView, ParseError> {
    match convert_path(raw.path) {
        Err(e) => Err(e),
        Ok(path) => match convert_variables(raw.query_params) {
            Err(e) => Err(e),
            Ok(query_params) => Ok(
                EndpointView {
                    method: method_of(raw.method)->Some_0,
                    path,
                    query_params,
                    request_type: raw.request_type,
                    response_type: raw.response_type,
                },
            ),
        },
    }
}

/// What endpoint notation `s` denotes: the syntax error where it leaves the
/// grammar, else the first conversion failure, else the endpoint.
pub open spec fn endpoint_of(s: Seq<char>) -> Result<EndpointView, ParseError> {
    match endpoint_syntax(s) {
        Err(e) => Err(e),
        Ok(raw) => convert_endpoint(raw),
    }
}

proof fn lemma_path_failure_kept(items: Seq<RawPathItem>, k: int)
    requires
        0 <= k <= items.len(),
        convert_path(items.subrange(0, k)) is Err,
    ensures
        convert_path(items) == convert_path(items.subrange(0, k)),
    decreases items.len(),
{
    if k < items.len() {
        assert(items.drop_last().subrange(0, k) =~= items.subrange(0, k));
        lemma_path_failure_kept(items.drop_last(), k);
    } else {
        assert(items.subrange(0, k) =~= items);
    }
}

proof fn lemma_variables_failure_kept(vs: Seq<RawVariable>, k: int)
    requires
        0 <= k <= vs.len(),
        convert_variables(vs.subrange(0, k)) is Err,
    ensures
        convert_variables(vs) == convert_variables(vs.subrange(0, k)),
    decreases vs.len(),
{
    if k < vs.len() {
        assert(vs.drop_last().subrange(0, k) =~= vs.subrange(0, k));
        lemma_variables_failure_kept(vs.drop_last(), k);
    } else {
        assert(vs.subrange(0, k) =~= vs);
    }
}

impl VariableType {
    pub fn try_from(value: &Pair) -> (r: Result<VariableType, ParseError>)
        ensures
            r == if value.rule == Rule::variable_type {
                convert_type(value.text@)
            } else {
                Err(ParseError::UnexpectRule)
            },
    {
        if value.rule != Rule::variable_type {
            return Err(ParseError::UnexpectRule);
        }
        match type_from(value.as_str()) {
            Some(t) => Ok(t),
            None => Err(ParseError::UnsupportType),
        }
    }
}

impl Variable {
    pub fn try_from(value: &Pair) -> (r: Result<Variable, ParseError>)
        requires
            value.wf(),
        ensures
            value.rule != Rule::variable ==> (r matches Err(e) && e == ParseError::UnexpectRule),
            value.rule == Rule::variable ==> match convert_variable(variable_raw(*value)) {
                Ok(v) => r matches Ok(x) && x@ == v,
                Err(e) => r matches Err(f) && f == e,
            },
    {
        if value.rule != Rule::variable {
            return Err(ParseError::UnexpectRule);
        }
        let ty = match VariableType::try_from(&value.inner[1]) {
            Ok(t) => t,
            Err(e) => return Err(e),
        };
        Ok(Variable(value.inner[0].text.clone(), ty))
    }
}

impl Method {
    pub fn try_from(value: &Pair) -> (r: Result<Method, ParseError>)
        requires
            value.wf(),
        ensures
            r == if value.rule == Rule::method {
                Ok(method_of(value.text@)->Some_0)
            } else {
                Err::<Method, ParseError>(ParseError::UnexpectRule)
            },
    {
        if value.rule != Rule::method {
            return Err(ParseError::UnexpectRule);
        }
        match method_from(value.as_str()) {
            Some(m) => Ok(m),
            None => {
                // the node's rule admits only the four method names
                proof {
                    assert(false);
                }
                Err(ParseError::UnexpectRule)
            },
        }
    }
}

impl Path {
    /// Converts a `segment` or a `variable` node.
    pub fn try_from(value: &Pair) -> (r: Result<Path, ParseError>)
        requires
            value.wf(),
        ensures
            !(value.rule == Rule::segment || value.rule == Rule::variable) ==> (r matches Err(e)
                && e == ParseError::UnexpectRule),
            value.rule == Rule::segment || value.rule == Rule::variable ==> match convert_path_item(
                path_item_raw(*value),
            ) {
                Ok(v) => r matches Ok(x) && x@ == v,
                Err(e) => r matches Err(f) && f == e,
            },
    {
        if value.rule == Rule::segment {
            Ok(Path::Segment(value.text.clone()))
        } else if value.rule == Rule::variable {
            match Variable::try_from(value) {
                Ok(Variable(name, ty)) => Ok(Path::Variable(name, ty)),
                Err(e) => Err(e),
            }
        } else {
            Err(ParseError::UnexpectRule)
        }
    }
}

impl RequestType {
    pub fn try_from(value: &Pair) -> (r: Result<RequestType, ParseError>)
        ensures
            value.rule == Rule::request_type ==> (r matches Ok(x) && x.0@ == value.text@),
            value.rule != Rule::request_type ==> (r matches Err(e) && e == ParseError::UnexpectRule),
    {
        if value.rule == Rule::request_type {
            Ok(RequestType(value.text.clone()))
        } else {
            Err(ParseError::UnexpectRule)
        }
    }
}

impl ResponseType {
    pub fn try_from(value: &Pair) -> (r: Result<ResponseType, ParseError>)
        ensures
            value.rule == Rule::response_type ==> (r matches Ok(x) && x.0@ == value.text@),
            value.rule != Rule::response_type ==> (r matches Err(e) && e == ParseError::UnexpectRule),
    {
        if value.rule == Rule::response_type {
            Ok(ResponseType(value.text.clone()))
        } else {
            Err(ParseError::UnexpectRule)
        }
    }
}

/// Converts the children of a `path` node, in order, stopping at the first failure.
pub fn convert_path_items(items: &Vec<Pair>) -> (r: Result<Vec<Path>, ParseError>)
    requires
        path_items_wf(items@),
    ensures
        match convert_path(path_items_raw(items@)) {
            Ok(v) => r matches Ok(out) && out@.map_values(|p: Path| p@) == v,
            Err(e) => r matches Err(f) && f == e,
        },
{
    let mut out: Vec<Path> = Vec::new();
    let mut k: usize = 0;
    assert(path_items_raw(items@.subrange(0, 0)) =~= Seq::<RawPathItem>::empty());
    assert(out@.map_values(|p: Path| p@) =~= Seq::<PathView>::empty());
    while k < items.len()
        invariant
            path_items_wf(items@),
            k <= items@.len(),
            convert_path(path_items_raw(items@.subrange(0, k as int))) == Ok::<Seq<PathView>, ParseError>(
                out@.map_values(|p: Path| p@),
            ),
        decreases items.len() - k,
    {
        let ghost before = path_items_raw(items@.subrange(0, k as int));
        let ghost after = path_items_raw(items@.subrange(0, k + 1));
        assert(after.drop_last() =~= before);
        assert(after.last() == path_item_raw(items@[k as int]));
        assert(path_item_wf(items@[k as int]));
        let ghost done = out@;
        match Path::try_from(&items[k]) {
            Ok(p) => {
                out.push(p);
                assert(out@.map_values(|p: Path| p@) =~= done.map_values(|p: Path| p@).push(p@));
            },
            Err(e) => {
                proof {
                    lemma_path_failure_kept(path_items_raw(items@), k + 1);
                    assert(path_items_raw(items@).subrange(0, k + 1) =~= after);
                }
                return Err(e);
            },
        }
        k = k + 1;
    }
    assert(items@.subrange(0, k as int) =~= items@);
    Ok(out)
}


/// Converts the children of a `query_params` node, in order, stopping at the first failure.
pub fn convert_variable_items(items: &Vec<Pair>) -> (r: Result<Vec<Variable>, ParseError>)
    requires
        variables_wf(items@),
    ensures
        match convert_variables(variables_raw(items@)) {
            Ok(v) => r matches Ok(out) && out@.map_values(|x: Variable| x@) == v,
            Err(e) => r matches Err(f) && f == e,
        },
{
    let mut out: Vec<Variable> = Vec::new();
    let mut k: usize = 0;
    assert(variables_raw(items@.subrange(0, 0)) =~= Seq::<RawVariable>::empty());
    assert(out@.map_values(|x: Variable| x@) =~= Seq::<VariableView>::empty());
    while k < items.len()
        invariant
            variables_wf(items@),
            k <= items@.len(),
            convert_variables(variables_raw(items@.subrange(0, k as int))) == Ok::<
                Seq<VariableView>,
                ParseError,
            >(out@.map_values(|x: Variable| x@)),
        decreases items.len() - k,
    {
        let ghost before = variables_raw(items@.subrange(0, k as int));
        let ghost after = variables_raw(items@.subrange(0, k + 1));
        assert(after.drop_last() =~= before);
        assert(after.last() == variable_raw(items@[k as int]));
        assert(variable_wf(items@[k as int]));
        let ghost done = out@;
        match Variable::try_from(&items[k]) {
            Ok(v) => {
                out.push(v);
                assert(out@.map_values(|x: Variable| x@) =~= done.map_values(|x: Variable| x@).push(
                    v@,
                ));
            },
            Err(e) => {
                proof {
                    lemma_variables_failure_kept(variables_raw(items@), k + 1);
                    assert(variables_raw(items@).subrange(0, k + 1) =~= after);
                }
                return Err(e);
            },
        }
        k = k + 1;
    }
    assert(items@.subrange(0, k as int) =~= items@);
    Ok(out)
}

impl Endpoint {
    /// Converts an `endpoint` node: its method, path and query parameter children in
    /// order, then the optional type names. A fourth child that converts as a request
    /// type is taken, and only then a fifth that converts as a response type; a child
    /// that does not convert leaves its type name absent.
    pub fn try_from(value: &Pair) -> (r: Result<Endpoint, ParseError>)
        requires
            value.wf(),
        ensures
            value.rule != Rule::endpoint ==> (r matches Err(e) && e == ParseError::UnexpectRule),
            value.rule == Rule::endpoint ==> match convert_endpoint(endpoint_raw(*value)) {
                Ok(v) => r matches Ok(x) && x@ == v,
                Err(e) => r matches Err(f) && f == e,
            },
    {
        if value.rule != Rule::endpoint {
            return Err(ParseError::UnexpectRule);
        }
        let method = match Method::try_from(&value.inner[0]) {
            Ok(m) => m,
            Err(e) => return Err(e),
        };
        let path = match convert_path_items(&value.inner[1].inner) {
            Ok(p) => p,
            Err(e) => return Err(e),
        };
        let query_params = match convert_variable_items(&value.inner[2].inner) {
            Ok(q) => q,
            Err(e) => return Err(e),
        };
        let n = value.inner.len();
        let mut next: usize = 3;
        let mut request_type: Option<String> = None;
        if next < n {
            if let Ok(rq) = RequestType::try_from(&value.inner[next]) {
                request_type = Some(rq.0);
                next = next + 1;
            }
        }
        let mut response_type: Option<String> = None;
        if request_type.is_some() && next < n {
            if let Ok(rs) = ResponseType::try_from(&value.inner[next]) {
                response_type = Some(rs.0);
            }
        }
        Ok(Endpoint { method, path, query_params, request_type, response_type })
    }
}

impl EndpointParser {
    /// Parses endpoint notation into an [`Endpoint`].
    pub fn parse_endpoint(input: &str) -> (r: Result<Endpoint, ParseError>)
        ensures
            match endpoint_of(input@) {
                Ok(v) => r matches Ok(x) && x@ == v,
                Err(e) => r matches Err(f) && f == e,
            },
    {
        let value = match Self::parse(Rule::endpoint, input) {
            Ok(v) => v,
            Err(e) => return Err(e),
        };
        Endpoint::try_from(&value)
    }
}

} // verus!
