//! Syntax nodes and the parser that builds them from the input.
use vstd::prelude::*;
use crate::grammar::{
    char_at, chars_of, endpoint_syntax, lemma_path_item_progress, lemma_variable_progress, method_from,
    method_of, method_syntax, more_params_syntax, path_item_syntax, path_items_syntax, path_syntax, response_syntax, scan_blanks, types_syntax,
    query_params_syntax, scan_name, syntax_error, token_syntax, variable_syntax, RawEndpoint,
    RawPathItem, RawVariable,
};
use crate::model::{ParseError, Rule, SyntaxError};

verus! {

/// A syntax node: the rule that matched, the text it matched, and its child nodes.
pub struct Pair {
    pub rule: Rule,
    pub text: String,
    pub inner: Vec<Pair>,
}

impl Pair {
    pub fn as_rule(&self) -> (r: Rule)
        ensures
            r == self.rule,
    {
        self.rule
    }

    pub fn as_str(&self) -> (r: &str)
        ensures
            r@ == self.text@,
    {
        self.text.as_str()
    }

    pub fn into_inner(self) -> (r: Vec<Pair>)
        ensures
            r@ == self.inner@,
    {
        self.inner
    }

    /// The node has the children that its rule calls for.
    pub open spec fn wf(self) -> bool {
        match self.rule {
            Rule::endpoint => endpoint_wf(self),
            Rule::method => method_wf(self),
            Rule::path => path_wf(self),
            Rule::variable => variable_wf(self),
            Rule::query_params => query_params_wf(self),
            _ => true,
        }
    }
}

pub open spec fn method_wf(p: Pair) -> bool {
    p.rule == Rule::method && method_of(p.text@) is Some
}

pub open spec fn variable_wf(p: Pair) -> bool {
    &&& p.rule == Rule::variable
    &&& p.inner@.len() == 2
    &&& p.inner@[0].rule == Rule::name
    &&& p.inner@[1].rule == Rule::variable_type
}

pub open spec fn variable_raw(p: Pair) -> RawVariable {
    RawVariable { name: p.inner@[0].text@, ty: p.inner@[1].text@ }
}

pub open spec fn path_item_wf(p: Pair) -> bool {
    p.rule == Rule::segment || variable_wf(p)
}

pub open spec fn path_item_raw(p: Pair) -> RawPathItem {
    if p.rule == Rule::segment {
        RawPathItem::Segment(p.text@)
    } else {
        RawPathItem::Variable(variable_raw(p))
    }
}

pub open spec fn path_items_wf(v: Seq<Pair>) -> bool {
    forall|k: int| 0 <= k < v.len() ==> path_item_wf(#[trigger] v[k])
}

pub open spec fn path_items_raw(v: Seq<Pair>) -> Seq<RawPathItem> {
    v.map_values(|c: Pair| path_item_raw(c))
}

pub open spec fn path_wf(p: Pair) -> bool {
    p.rule == Rule::path && path_items_wf(p.inner@)
}

pub open spec fn variables_wf(v: Seq<Pair>) -> bool {
    forall|k: int| 0 <= k < v.len() ==> variable_wf(#[trigger] v[k])
}

pub open spec fn variables_raw(v: Seq<Pair>) -> Seq<RawVariable> {
    v.map_values(|c: Pair| variable_raw(c))
}

pub open spec fn query_params_wf(p: Pair) -> bool {
    p.rule == Rule::query_params && variables_wf(p.inner@)
}

pub open spec fn endpoint_wf(p: Pair) -> bool {
    &&& p.rule == Rule::endpoint
    &&& p.inner@.len() >= 3
    &&& method_wf(p.inner@[0])
    &&& path_wf(p.inner@[1])
    &&& query_params_wf(p.inner@[2])
}

/// The optional type names of an endpoint node: a request type is the fourth
/// child when that child is of rule `request_type`; a response type is the
/// fifth when there is a request type and that child is of rule `response_type`.
pub open spec fn endpoint_types(p: Pair) -> (Option<Seq<char>>, Option<Seq<char>>) {
    let n = p.inner@.len();
    if n > 3 && p.inner@[3].rule == Rule::request_type {
        (
            Some(p.inner@[3].text@),
            if n > 4 && p.inner@[4].rule == Rule::response_type {
                Some(p.inner@[4].text@)
            } else {
                None
            },
        )
    } else {
        (None, None)
    }
}

pub open spec fn endpoint_raw(p: Pair) -> RawEndpoint {
    RawEndpoint {
        method: p.inner@[0].text@,
        path: path_items_raw(p.inner@[1].inner@),
        query_params: variables_raw(p.inner@[2].inner@),
        request_type: endpoint_types(p).0,
        response_type: endpoint_types(p).1,
    }
}

/// What a node of each rule stands for.
pub enum Raw {
    Token(Seq<char>),
    Variable(RawVariable),
    Path(Seq<RawPathItem>),
    Params(Seq<RawVariable>),
    Endpoint(RawEndpoint),
}

pub open spec fn raw_of(p: Pair) -> Raw {
    match p.rule {
        Rule::endpoint => Raw::Endpoint(endpoint_raw(p)),
        Rule::path => Raw::Path(path_items_raw(p.inner@)),
        Rule::variable => Raw::Variable(variable_raw(p)),
        Rule::query_params => Raw::Params(variables_raw(p.inner@)),
        _ => Raw::Token(p.text@),
    }
}

/// The input read, from its start, as `rule`, and where the reading stopped. Only
/// `endpoint` must reach the end of the input.
pub open spec fn rule_syntax(rule: Rule, s: Seq<char>) -> Result<(Raw, int), ParseError> {
    match rule {
        Rule::endpoint => match endpoint_syntax(s) {
            Err(e) => Err(e),
            Ok(e) => Ok((Raw::Endpoint(e), s.len() as int)),
        },
        Rule::method => match method_syntax(s, 0) {
            Err(e) => Err(e),
            Ok((t, j)) => Ok((Raw::Token(t), j)),
        },
        Rule::path => match path_syntax(s, 0) {
            Err(e) => Err(e),
            Ok((v, j)) => Ok((Raw::Path(v), j)),
        },
        Rule::variable => match variable_syntax(s, 0) {
            Err(e) => Err(e),
            Ok((v, j)) => Ok((Raw::Variable(v), j)),
        },
        Rule::query_params => match query_params_syntax(s, 0) {
            Err(e) => Err(e),
            Ok((v, j)) => Ok((Raw::Params(v), j)),
        },
        _ => match token_syntax(s, 0, rule) {
            Err(e) => Err(e),
            Ok((t, j)) => Ok((Raw::Token(t), j)),
        },
    }
}

fn syntax_err(position: usize, expected: Rule) -> (e: ParseError)
    ensures
        e == syntax_error(position as int, expected),
{
    ParseError::Syntax(SyntaxError { position, expected })
}

/// Relies on `String::push`, which appends one character to the end of the string.
#[verifier::external_body]
fn push_char(t: &mut String, c: char)
    ensures
        final(t)@ == old(t)@.push(c),
{
    t.push(c)
}

fn text_of(input: &Vec<char>, from: usize, to: usize) -> (t: String)
    requires
        from <= to <= input@.len(),
    ensures
        t@ == input@.subrange(from as int, to as int),
{
    let mut t = String::new();
    let mut k: usize = from;
    while k < to
        invariant
            from <= k <= to <= input@.len(),
            t@ == input@.subrange(from as int, k as int),
        decreases to - k,
    {
        push_char(&mut t, input[k]);
        assert(input@.subrange(from as int, k + 1) =~= input@.subrange(from as int, k as int).push(
            input@[k as int],
        ));
        k = k + 1;
    }
    t
}

fn leaf(input: &Vec<char>, rule: Rule, from: usize, to: usize) -> (p: Pair)
    requires
        from <= to <= input@.len(),
    ensures
        p.rule == rule,
        p.text@ == input@.subrange(from as int, to as int),
        p.inner@.len() == 0,
{
    Pair { rule, text: text_of(input, from, to), inner: Vec::new() }
}

fn token_at(input: &Vec<char>, len: usize, i: usize, rule: Rule) -> (r: Result<(Pair, usize), ParseError>)
    requires
        len == input@.len(),
        i <= len,
    ensures
        match token_syntax(input@, i as int, rule) {
            Ok((t, j)) => r matches Ok((p, k)) && k == j && p.rule == rule && p.text@ == t
                && p.inner@.len() == 0,
            Err(e) => r matches Err(f) && f == e,
        },
        r matches Ok((_, k)) ==> i < k <= len,
        r matches Ok((p, k)) ==> p.text@ == input@.subrange(i as int, k as int),
{
    let j = scan_name(input, len, i);
    if j == i {
        Err(syntax_err(i, rule))
    } else {
        Ok((leaf(input, rule, i, j), j))
    }
}

fn method_at(input: &Vec<char>, len: usize) -> (r: Result<(Pair, usize), ParseError>)
    requires
        len == input@.len(),
    ensures
        match method_syntax(input@, 0) {
            Ok((t, j)) => r matches Ok((p, k)) && k == j && method_wf(p) && p.text@ == t,
            Err(e) => r matches Err(f) && f == e,
        },
        r matches Ok((_, k)) ==> k <= len,
        r matches Ok((p, k)) ==> p.text@ == input@.subrange(0, k as int),
{
    let j = scan_name(input, len, 0);
    let p = leaf(input, Rule::method, 0, j);
    if method_from(p.as_str()).is_some() {
        Ok((p, j))
    } else {
        Err(syntax_err(0, Rule::method))
    }
}

fn variable_at(input: &Vec<char>, len: usize, i: usize) -> (r: Result<(Pair, usize), ParseError>)
    requires
        len == input@.len(),
        i <= len,
    ensures
        match variable_syntax(input@, i as int) {
            Ok((v, j)) => r matches Ok((p, k)) && k == j && variable_wf(p) && variable_raw(p) == v,
            Err(e) => r matches Err(f) && f == e,
        },
        r matches Ok((_, k)) ==> i < k <= len,
        r matches Ok((p, k)) ==> p.text@ == input@.subrange(i as int, k as int),
{
    let (name, j) = match token_at(input, len, i, Rule::name) {
        Ok(x) => x,
        Err(e) => return Err(e),
    };
    if !char_at(input, len, j, ':') {
        return Err(syntax_err(j, Rule::variable));
    }
    let (ty, k) = match token_at(input, len, j + 1, Rule::variable_type) {
        Ok(x) => x,
        Err(e) => return Err(e),
    };
    let mut inner: Vec<Pair> = Vec::new();
    inner.push(name);
    inner.push(ty);
    Ok((node(input, Rule::variable, i, k, inner), k))
}

fn node(input: &Vec<char>, rule: Rule, from: usize, to: usize, inner: Vec<Pair>) -> (p: Pair)
    requires
        from <= to <= input@.len(),
    ensures
        p.rule == rule,
        p.text@ == input@.subrange(from as int, to as int),
        p.inner == inner,
{
    Pair { rule, text: text_of(input, from, to), inner }
}

fn path_item_at(input: &Vec<char>, len: usize, i: usize) -> (r: Result<(Pair, usize), ParseError>)
    requires
        len == input@.len(),
        i <= len,
    ensures
        match path_item_syntax(input@, i as int) {
            Ok((v, j)) => r matches Ok((p, k)) && k == j && path_item_wf(p) && path_item_raw(p) == v,
            Err(e) => r matches Err(f) && f == e,
        },
        r matches Ok((_, k)) ==> i < k <= len,
{
    if char_at(input, len, i, '{') {
        let (v, j) = match variable_at(input, len, i + 1) {
            Ok(x) => x,
            Err(e) => return Err(e),
        };
        if char_at(input, len, j, '}') {
            Ok((v, j + 1))
        } else {
            Err(syntax_err(j, Rule::variable))
        }
    } else {
        token_at(input, len, i, Rule::segment)
    }
}

fn path_items_at(input: &Vec<char>, len: usize, i: usize) -> (r: Result<(Vec<Pair>, usize), ParseError>)
    requires
        len == input@.len(),
        i <= len,
    ensures
        match path_items_syntax(input@, i as int) {
            Ok((v, j)) => r matches Ok((ps, k)) && k == j && path_items_wf(ps@) && path_items_raw(ps@)
                == v,
            Err(e) => r matches Err(f) && f == e,
        },
        r matches Ok((_, k)) ==> i <= k <= len,
    decreases len - i,
{
    if !char_at(input, len, i, '/') {
        return Ok((Vec::new(), i));
    }
    let (item, j) = match path_item_at(input, len, i + 1) {
        Ok(x) => x,
        Err(e) => return Err(e),
    };
    proof {
        lemma_path_item_progress(input@, i + 1);
    }
    let (mut items, k) = match path_items_at(input, len, j) {
        Ok(x) => x,
        Err(e) => return Err(e),
    };
    let ghost rest = items@;
    items.insert(0, item);
    assert(path_items_raw(items@) =~= seq![path_item_raw(item)] + path_items_raw(rest));
    assert(path_items_wf(items@)) by {
        assert forall|m: int| 0 <= m < items@.len() implies path_item_wf(#[trigger] items@[m]) by {
            if m > 0 {
                assert(items@[m] == rest[m - 1]);
            }
        }
    }
    Ok((items, k))
}

fn more_params_at(input: &Vec<char>, len: usize, i: usize) -> (r: Result<(Vec<Pair>, usize), ParseError>)
    requires
        len == input@.len(),
        i <= len,
    ensures
        match more_params_syntax(input@, i as int) {
            Ok((v, j)) => r matches Ok((ps, k)) && k == j && variables_wf(ps@) && variables_raw(ps@)
                == v,
            Err(e) => r matches Err(f) && f == e,
        },
        r matches Ok((_, k)) ==> i <= k <= len,
    decreases len - i,
{
    if !char_at(input, len, i, '&') {
        return Ok((Vec::new(), i));
    }
    let (item, j) = match variable_at(input, len, i + 1) {
        Ok(x) => x,
        Err(e) => return Err(e),
    };
    proof {
        lemma_variable_progress(input@, i + 1);
    }
    let (mut items, k) = match more_params_at(input, len, j) {
        Ok(x) => x,
        Err(e) => return Err(e),
    };
    let ghost rest = items@;
    items.insert(0, item);
    assert(variables_raw(items@) =~= seq![variable_raw(item)] + variables_raw(rest));
    assert(variables_wf(items@)) by {
        assert forall|m: int| 0 <= m < items@.len() implies variable_wf(#[trigger] items@[m]) by {
            if m > 0 {
                assert(items@[m] == rest[m - 1]);
            }
        }
    }
    Ok((items, k))
}


pub open spec fn opt_text(o: Option<Pair>) -> Option<Seq<char>> {
    match o {
        Some(p) => Some(p.text@),
        None => None,
    }
}

fn path_at(input: &Vec<char>, len: usize, i: usize) -> (r: Result<(Pair, usize), ParseError>)
    requires
        len == input@.len(),
        i <= len,
    ensures
        match path_syntax(input@, i as int) {
            Ok((v, j)) => r matches Ok((p, k)) && k == j && path_wf(p) && path_items_raw(p.inner@)
                == v,
            Err(e) => r matches Err(f) && f == e,
        },
        r matches Ok((_, k)) ==> i <= k <= len,
        r matches Ok((p, k)) ==> p.text@ == input@.subrange(i as int, k as int),
{
    if !char_at(input, len, i, '/') {
        return Err(syntax_err(i, Rule::path));
    }
    let (items, k) = match path_items_at(input, len, i) {
        Ok(x) => x,
        Err(e) => return Err(e),
    };
    Ok((node(input, Rule::path, i, k, items), k))
}

fn query_params_at(input: &Vec<char>, len: usize, i: usize) -> (r: Result<(Pair, usize), ParseError>)
    requires
        len == input@.len(),
        i <= len,
    ensures
        match query_params_syntax(input@, i as int) {
            Ok((v, j)) => r matches Ok((p, k)) && k == j && query_params_wf(p) && variables_raw(
                p.inner@,
            ) == v,
            Err(e) => r matches Err(f) && f == e,
        },
        r matches Ok((_, k)) ==> i <= k <= len,
        r matches Ok((p, k)) ==> p.text@ == input@.subrange(i as int, k as int),
{
    if !char_at(input, len, i, '?') {
        return Ok((leaf(input, Rule::query_params, i, i), i));
    }
    let (first, j) = match variable_at(input, len, i + 1) {
        Ok(x) => x,
        Err(e) => return Err(e),
    };
    let (mut items, k) = match more_params_at(input, len, j) {
        Ok(x) => x,
        Err(e) => return Err(e),
    };
    let ghost rest = items@;
    items.insert(0, first);
    assert(variables_raw(items@) =~= seq![variable_raw(first)] + variables_raw(rest));
    assert(variables_wf(items@)) by {
        assert forall|m: int| 0 <= m < items@.len() implies variable_wf(#[trigger] items@[m]) by {
            if m > 0 {
                assert(items@[m] == rest[m - 1]);
            }
        }
    }
    Ok((node(input, Rule::query_params, i, k, items), k))
}

fn response_at(input: &Vec<char>, len: usize, i: usize) -> (r: Result<Option<Pair>, ParseError>)
    requires
        len == input@.len(),
        i <= len,
    ensures
        match response_syntax(input@, i as int) {
            Ok(t) => r matches Ok(o) && opt_text(o) == t && (o matches Some(p) ==> p.rule
                == Rule::response_type),
            Err(e) => r matches Err(f) && f == e,
        },
{
    let a = scan_blanks(input, len, i);
    if a == len {
        return Ok(None);
    }
    let (t, b) = match token_at(input, len, a, Rule::response_type) {
        Ok(x) => x,
        Err(e) => return Err(e),
    };
    let c = scan_blanks(input, len, b);
    if c == len {
        Ok(Some(t))
    } else {
        Err(syntax_err(c, Rule::endpoint))
    }
}

fn types_at(input: &Vec<char>, len: usize, i: usize) -> (r: Result<(Option<Pair>, Option<Pair>), ParseError>)
    requires
        len == input@.len(),
        i <= len,
    ensures
        match types_syntax(input@, i as int) {
            Ok((rq, rs)) => r matches Ok((a, b)) && opt_text(a) == rq && opt_text(b) == rs && (
            a matches Some(p) ==> p.rule == Rule::request_type) && (b matches Some(p) ==> p.rule
                == Rule::response_type) && (a is None ==> b is None),
            Err(e) => r matches Err(f) && f == e,
        },
{
    let a = scan_blanks(input, len, i);
    if a == len {
        return Ok((None, None));
    }
    if a == i {
        return Err(syntax_err(i, Rule::endpoint));
    }
    let (rq, b) = match token_at(input, len, a, Rule::request_type) {
        Ok(x) => x,
        Err(e) => return Err(e),
    };
    let c = scan_blanks(input, len, b);
    if c == len {
        return Ok((Some(rq), None));
    }
    if char_at(input, len, c, '-') && char_at(input, len, c + 1, '>') {
        match response_at(input, len, c + 2) {
            Ok(rs) => Ok((Some(rq), rs)),
            Err(e) => Err(e),
        }
    } else {
        Err(syntax_err(c, Rule::endpoint))
    }
}

fn endpoint_at(input: &Vec<char>) -> (r: Result<Pair, ParseError>)
    ensures
        match endpoint_syntax(input@) {
            Ok(raw) => r matches Ok(p) && endpoint_wf(p) && endpoint_raw(p) == raw,
            Err(e) => r matches Err(f) && f == e,
        },
        r matches Ok(p) ==> p.text@ == input@,
{
    let len = input.len();
    let (method, i) = match method_at(input, len) {
        Ok(x) => x,
        Err(e) => return Err(e),
    };
    let j = scan_blanks(input, len, i);
    if j == i {
        return Err(syntax_err(i, Rule::endpoint));
    }
    let (path, k) = match path_at(input, len, j) {
        Ok(x) => x,
        Err(e) => return Err(e),
    };
    let (query_params, l) = match query_params_at(input, len, k) {
        Ok(x) => x,
        Err(e) => return Err(e),
    };
    let (rq, rs) = match types_at(input, len, l) {
        Ok(x) => x,
        Err(e) => return Err(e),
    };
    let mut inner: Vec<Pair> = Vec::new();
    inner.push(method);
    inner.push(path);
    inner.push(query_params);
    if let Some(p) = rq {
        inner.push(p);
        if let Some(q) = rs {
            inner.push(q);
        }
    }
    let p = node(input, Rule::endpoint, 0, len, inner);
    assert(input@.subrange(0, len as int) =~= input@);
    Ok(p)
}

/// Reads endpoint notation into syntax nodes.
pub struct EndpointParser;

impl EndpointParser {
    /// Reads `input`, from its start, as `rule`; the node returned has the children that
    /// its rule calls for, stands for what the grammar reads, and holds the text read.
    pub fn parse(rule: Rule, input: &str) -> (r: Result<Pair, ParseError>)
        ensures
            match rule_syntax(rule, input@) {
                Ok((raw, end)) => r matches Ok(p) && p.rule == rule && p.wf() && raw_of(p) == raw
                    && p.text@ == input@.subrange(0, end),
                Err(e) => r matches Err(f) && f == e,
            },
    {
        let chars = chars_of(input);
        let len = chars.len();
        match rule {
            Rule::endpoint => endpoint_at(&chars),
            Rule::method => match method_at(&chars, len) {
                Ok((p, _)) => Ok(p),
                Err(e) => Err(e),
            },
            Rule::path => match path_at(&chars, len, 0) {
                Ok((p, _)) => Ok(p),
                Err(e) => Err(e),
            },
            Rule::variable => match variable_at(&chars, len, 0) {
                Ok((p, _)) => Ok(p),
                Err(e) => Err(e),
            },
            Rule::query_params => match query_params_at(&chars, len, 0) {
                Ok((p, _)) => Ok(p),
                Err(e) => Err(e),
            },
            _ => match token_at(&chars, len, 0, rule) {
                Ok((p, _)) => Ok(p),
                Err(e) => Err(e),
            },
        }
    }
}

} // verus!
