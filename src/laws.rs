//! Properties of the notation that relate several functions or hold of all inputs.
use vstd::prelude::*;
use crate::convert::{convert_endpoint, convert_path, convert_type, convert_variables, endpoint_of};
use crate::tree::{endpoint_raw, endpoint_types, path_items_raw, variables_raw, Pair};
use crate::grammar::{
    at, blank_end, fold_case, is_name_char, method_of, method_syntax, more_params_syntax,
    name_end, path_item_syntax, path_items_syntax, path_syntax, endpoint_syntax, RawEndpoint, query_params_syntax, same_letters,
    syntax_error, type_of, types_syntax, variable_syntax, RawPathItem, RawVariable,
};
use crate::model::{EndpointView, Method, ParseError, PathView, Rule, VariableType, VariableView};

verus! {

/// How each method is written, in upper case.
pub open spec fn method_name(m: Method) -> Seq<char> {
    match m {
        Method::GET => seq!['G', 'E', 'T'],
        Method::POST => seq!['P', 'O', 'S', 'T'],
        Method::PUT => seq!['P', 'U', 'T'],
        Method::DELETE => seq!['D', 'E', 'L', 'E', 'T', 'E'],
    }
}

/// How each variable type is written, in lower case.
pub open spec fn variable_type_name(t: VariableType) -> Seq<char> {
    match t {
        VariableType::String => seq!['s', 't', 'r', 'i', 'n', 'g'],
        VariableType::Short => seq!['s', 'h', 'o', 'r', 't'],
        VariableType::Int => seq!['i', 'n', 't'],
        VariableType::Long => seq!['l', 'o', 'n', 'g'],
        VariableType::Float => seq!['f', 'l', 'o', 'a', 't'],
        VariableType::Double => seq!['d', 'o', 'u', 'b', 'l', 'e'],
        VariableType::Bool => seq!['b', 'o', 'o', 'l'],
    }
}

/// A method name written in any letter case names exactly that method.
pub proof fn law_method_any_case(m: Method, t: Seq<char>)
    requires
        same_letters(t, method_name(m)),
    ensures
        method_of(t) == Some(m),
{
    assert(fold_case(t[0]) == fold_case(method_name(m)[0]));
}

/// An endpoint whose first token is a method name in any letter case is read with
/// that method; when the token names no method, the input is a syntax error at its
/// start.
pub proof fn law_method_token(s: Seq<char>)
    ensures
        forall|m: Method| #[trigger]
            same_letters(s.subrange(0, name_end(s, 0)), method_name(m)) ==> method_syntax(s, 0) is Ok
                && (endpoint_of(s) matches Ok(e) ==> e.method == m),
        (forall|m: Method| !#[trigger] same_letters(s.subrange(0, name_end(s, 0)), method_name(m)))
            ==> method_syntax(s, 0) is Err && endpoint_of(s) == Err::<EndpointView, ParseError>(
            syntax_error(0, Rule::method),
        ),
{
    let t = s.subrange(0, name_end(s, 0));
    assert forall|m: Method| #[trigger] same_letters(t, method_name(m)) implies method_syntax(s, 0) is Ok
        && (endpoint_of(s) matches Ok(e) ==> e.method == m) by {
        law_method_any_case(m, t);
    }
    if forall|m: Method| !#[trigger] same_letters(t, method_name(m)) {
        assert(!same_letters(t, method_name(Method::GET)));
        assert(!same_letters(t, method_name(Method::POST)));
        assert(!same_letters(t, method_name(Method::PUT)));
        assert(!same_letters(t, method_name(Method::DELETE)));
        assert(method_of(t) is None);
    }
}

/// A variable type name written in any letter case converts to exactly that type;
/// any other token converts to `UnsupportType`.
pub proof fn law_variable_type_names(t: Seq<char>)
    ensures
        forall|ty: VariableType| #[trigger] same_letters(t, variable_type_name(ty)) ==> convert_type(t) == Ok::<VariableType, ParseError>(ty),
        (forall|ty: VariableType| !#[trigger] same_letters(t, variable_type_name(ty))) ==> convert_type(t)
            == Err::<VariableType, ParseError>(ParseError::UnsupportType),
{
    assert forall|ty: VariableType| #[trigger] same_letters(t, variable_type_name(ty)) implies convert_type(t) == Ok::<VariableType, ParseError>(ty) by {
        assert(fold_case(t[0]) == fold_case(variable_type_name(ty)[0]));
    }
    if forall|ty: VariableType| !#[trigger] same_letters(t, variable_type_name(ty)) {
        assert(!same_letters(t, variable_type_name(VariableType::String)));
        assert(!same_letters(t, variable_type_name(VariableType::Short)));
        assert(!same_letters(t, variable_type_name(VariableType::Int)));
        assert(!same_letters(t, variable_type_name(VariableType::Long)));
        assert(!same_letters(t, variable_type_name(VariableType::Float)));
        assert(!same_letters(t, variable_type_name(VariableType::Double)));
        assert(!same_letters(t, variable_type_name(VariableType::Bool)));
        assert(type_of(t) is None);
    }
}

/// A variable whose type does not start with a name character is a syntax error
/// at the type's position, before any type name is looked at.
pub proof fn law_type_shape(s: Seq<char>, i: int)
    requires
        0 <= i <= s.len(),
        name_end(s, i) > i,
        at(s, name_end(s, i), ':'),
        !(name_end(s, i) + 1 < s.len() && is_name_char(s[name_end(s, i) + 1])),
    ensures
        variable_syntax(s, i) == Err::<(RawVariable, int), ParseError>(
            syntax_error(name_end(s, i) + 1, Rule::variable_type),
        ),
{
}


/// A non-empty run of name characters.
pub open spec fn is_name(t: Seq<char>) -> bool {
    t.len() > 0 && forall|k: int| 0 <= k < t.len() ==> is_name_char(#[trigger] t[k])
}

/// `r` stands in `s` from position `i` on.
pub open spec fn written_at(s: Seq<char>, i: int, r: Seq<char>) -> bool {
    &&& 0 <= i
    &&& i + r.len() <= s.len()
    &&& forall|k: int| 0 <= k < r.len() ==> s[i + k] == #[trigger] r[k]
}

/// No name character stands at `i`.
pub open spec fn name_stops(s: Seq<char>, i: int) -> bool {
    !(0 <= i < s.len() && is_name_char(s[i]))
}

pub open spec fn render_variable(v: RawVariable) -> Seq<char> {
    v.name + seq![':'] + v.ty
}

pub open spec fn render_item(item: RawPathItem) -> Seq<char> {
    match item {
        RawPathItem::Segment(t) => t,
        RawPathItem::Variable(v) => seq!['{'] + render_variable(v) + seq!['}'],
    }
}

pub open spec fn render_path(items: Seq<RawPathItem>) -> Seq<char>
    decreases items.len(),
{
    if items.len() == 0 {
        Seq::empty()
    } else {
        seq!['/'] + render_item(items[0]) + render_path(items.drop_first())
    }
}

pub open spec fn variable_ok(v: RawVariable) -> bool {
    is_name(v.name) && is_name(v.ty)
}

pub open spec fn item_ok(item: RawPathItem) -> bool {
    match item {
        RawPathItem::Segment(t) => is_name(t),
        RawPathItem::Variable(v) => variable_ok(v),
    }
}

proof fn lemma_written_split(s: Seq<char>, i: int, a: Seq<char>, b: Seq<char>)
    requires
        written_at(s, i, a + b),
    ensures
        written_at(s, i, a),
        written_at(s, i + a.len(), b),
{
    assert forall|k: int| 0 <= k < a.len() implies s[i + k] == #[trigger] a[k] by {
        assert((a + b)[k] == a[k]);
    }
    assert forall|k: int| 0 <= k < b.len() implies s[i + a.len() + k] == #[trigger] b[k] by {
        assert((a + b)[a.len() + k] == b[k]);
        assert(s[i + (a.len() + k)] == (a + b)[a.len() + k]);
    }
}

proof fn lemma_name_run(s: Seq<char>, i: int, t: Seq<char>)
    requires
        written_at(s, i, t),
        forall|k: int| 0 <= k < t.len() ==> is_name_char(#[trigger] t[k]),
        name_stops(s, i + t.len()),
    ensures
        name_end(s, i) == i + t.len(),
        s.subrange(i, i + t.len()) == t,
    decreases t.len(),
{
    if t.len() > 0 {
        assert(s[i + 0] == t[0]);
        let rest = t.drop_first();
        assert forall|k: int| 0 <= k < rest.len() implies s[i + 1 + k] == #[trigger] rest[k] by {
            assert(s[i + (k + 1)] == t[k + 1]);
        }
        assert forall|k: int| 0 <= k < rest.len() implies is_name_char(#[trigger] rest[k]) by {
            assert(is_name_char(t[k + 1]));
        }
        lemma_name_run(s, i + 1, rest);
    }
    assert forall|k: int| 0 <= k < t.len() implies s.subrange(i, i + t.len())[k] == t[k] by {
        assert(s[i + k] == t[k]);
    }
    assert(s.subrange(i, i + t.len()) =~= t);
}

proof fn lemma_char_at(s: Seq<char>, i: int, c: char)
    requires
        written_at(s, i, seq![c]),
    ensures
        at(s, i, c),
{
    assert(s[i + 0] == seq![c][0]);
}

proof fn lemma_variable(s: Seq<char>, i: int, v: RawVariable)
    requires
        written_at(s, i, render_variable(v)),
        variable_ok(v),
        name_stops(s, i + render_variable(v).len()),
    ensures
        variable_syntax(s, i) == Ok::<(RawVariable, int), ParseError>(
            (v, i + render_variable(v).len()),
        ),
{
    lemma_written_split(s, i, v.name + seq![':'], v.ty);
    lemma_written_split(s, i, v.name, seq![':']);
    lemma_char_at(s, i + v.name.len(), ':');
    lemma_name_run(s, i, v.name);
    lemma_name_run(s, i + v.name.len() + 1, v.ty);
}

proof fn lemma_path_item(s: Seq<char>, i: int, item: RawPathItem)
    requires
        written_at(s, i, render_item(item)),
        item_ok(item),
        name_stops(s, i + render_item(item).len()),
    ensures
        path_item_syntax(s, i) == Ok::<(RawPathItem, int), ParseError>(
            (item, i + render_item(item).len()),
        ),
{
    match item {
        RawPathItem::Segment(t) => {
            assert(s[i + 0] == t[0]);
            lemma_name_run(s, i, t);
        },
        RawPathItem::Variable(v) => {
            lemma_written_split(s, i, seq!['{'] + render_variable(v), seq!['}']);
            lemma_written_split(s, i, seq!['{'], render_variable(v));
            lemma_char_at(s, i, '{');
            lemma_char_at(s, i + 1 + render_variable(v).len(), '}');
            lemma_variable(s, i + 1, v);
        },
    }
}

proof fn lemma_path_items(s: Seq<char>, i: int, items: Seq<RawPathItem>)
    requires
        written_at(s, i, render_path(items)),
        forall|k: int| 0 <= k < items.len() ==> item_ok(#[trigger] items[k]),
        !at(s, i + render_path(items).len(), '/'),
        name_stops(s, i + render_path(items).len()),
    ensures
        path_items_syntax(s, i) == Ok::<(Seq<RawPathItem>, int), ParseError>(
            (items, i + render_path(items).len()),
        ),
    decreases items.len(),
{
    if items.len() == 0 {
        assert(items =~= Seq::<RawPathItem>::empty());
    } else {
        let item = items[0];
        let rest = items.drop_first();
        lemma_written_split(s, i, seq!['/'] + render_item(item), render_path(rest));
        lemma_written_split(s, i, seq!['/'], render_item(item));
        lemma_char_at(s, i, '/');
        let j = i + 1 + render_item(item).len();
        assert forall|k: int| 0 <= k < rest.len() implies item_ok(#[trigger] rest[k]) by {
            assert(item_ok(items[k + 1]));
        }
        if rest.len() > 0 {
            lemma_written_split(s, j, seq!['/'] + render_item(rest[0]), render_path(rest.drop_first()));
            lemma_written_split(s, j, seq!['/'], render_item(rest[0]));
            lemma_char_at(s, j, '/');
        }
        assert(item_ok(items[0]));
        lemma_path_item(s, i + 1, item);
        lemma_path_items(s, j, rest);
        assert(seq![item] + rest =~= items);
    }
}


pub open spec fn render_more_params(vs: Seq<RawVariable>) -> Seq<char>
    decreases vs.len(),
{
    if vs.len() == 0 {
        Seq::empty()
    } else {
        seq!['&'] + render_variable(vs[0]) + render_more_params(vs.drop_first())
    }
}

pub open spec fn render_query_params(vs: Seq<RawVariable>) -> Seq<char> {
    if vs.len() == 0 {
        Seq::empty()
    } else {
        seq!['?'] + render_variable(vs[0]) + render_more_params(vs.drop_first())
    }
}

pub open spec fn render_types(rq: Option<Seq<char>>, rs: Option<Seq<char>>) -> Seq<char> {
    match (rq, rs) {
        (Some(a), Some(b)) => seq![' '] + a + seq![' ', '-', '>', ' '] + b,
        (Some(a), None) => seq![' '] + a,
        _ => Seq::empty(),
    }
}

/// An endpoint written out from its tokens, with single blanks.
pub open spec fn render_endpoint(
    method: Seq<char>,
    items: Seq<RawPathItem>,
    vs: Seq<RawVariable>,
    rq: Option<Seq<char>>,
    rs: Option<Seq<char>>,
) -> Seq<char> {
    method + seq![' '] + render_path(items) + render_query_params(vs) + render_types(rq, rs)
}

proof fn lemma_more_params(s: Seq<char>, i: int, vs: Seq<RawVariable>)
    requires
        written_at(s, i, render_more_params(vs)),
        forall|k: int| 0 <= k < vs.len() ==> variable_ok(#[trigger] vs[k]),
        !at(s, i + render_more_params(vs).len(), '&'),
        name_stops(s, i + render_more_params(vs).len()),
    ensures
        more_params_syntax(s, i) == Ok::<(Seq<RawVariable>, int), ParseError>(
            (vs, i + render_more_params(vs).len()),
        ),
    decreases vs.len(),
{
    if vs.len() == 0 {
        assert(vs =~= Seq::<RawVariable>::empty());
    } else {
        let v = vs[0];
        let rest = vs.drop_first();
        lemma_written_split(s, i, seq!['&'] + render_variable(v), render_more_params(rest));
        lemma_written_split(s, i, seq!['&'], render_variable(v));
        lemma_char_at(s, i, '&');
        let j = i + 1 + render_variable(v).len();
        assert forall|k: int| 0 <= k < rest.len() implies variable_ok(#[trigger] rest[k]) by {
            assert(variable_ok(vs[k + 1]));
        }
        if rest.len() > 0 {
            lemma_written_split(s, j, seq!['&'] + render_variable(rest[0]), render_more_params(rest.drop_first()));
            lemma_written_split(s, j, seq!['&'], render_variable(rest[0]));
            lemma_char_at(s, j, '&');
        }
        assert(variable_ok(vs[0]));
        lemma_variable(s, i + 1, v);
        lemma_more_params(s, j, rest);
        assert(seq![v] + rest =~= vs);
    }
}

proof fn lemma_query_params(s: Seq<char>, i: int, vs: Seq<RawVariable>)
    requires
        written_at(s, i, render_query_params(vs)),
        forall|k: int| 0 <= k < vs.len() ==> variable_ok(#[trigger] vs[k]),
        vs.len() == 0 ==> !at(s, i, '?'),
        !at(s, i + render_query_params(vs).len(), '&'),
        name_stops(s, i + render_query_params(vs).len()),
    ensures
        query_params_syntax(s, i) == Ok::<(Seq<RawVariable>, int), ParseError>(
            (vs, i + render_query_params(vs).len()),
        ),
{
    if vs.len() == 0 {
        assert(vs =~= Seq::<RawVariable>::empty());
    } else {
        let v = vs[0];
        let rest = vs.drop_first();
        lemma_written_split(s, i, seq!['?'] + render_variable(v), render_more_params(rest));
        lemma_written_split(s, i, seq!['?'], render_variable(v));
        lemma_char_at(s, i, '?');
        let j = i + 1 + render_variable(v).len();
        assert forall|k: int| 0 <= k < rest.len() implies variable_ok(#[trigger] rest[k]) by {
            assert(variable_ok(vs[k + 1]));
        }
        if rest.len() > 0 {
            lemma_written_split(s, j, seq!['&'] + render_variable(rest[0]), render_more_params(rest.drop_first()));
            lemma_written_split(s, j, seq!['&'], render_variable(rest[0]));
            lemma_char_at(s, j, '&');
        }
        assert(variable_ok(vs[0]));
        lemma_variable(s, i + 1, v);
        lemma_more_params(s, j, rest);
        assert(seq![v] + rest =~= vs);
    }
}

proof fn lemma_types(s: Seq<char>, i: int, rq: Option<Seq<char>>, rs: Option<Seq<char>>)
    requires
        written_at(s, i, render_types(rq, rs)),
        s.len() == i + render_types(rq, rs).len(),
        rq matches Some(a) ==> is_name(a),
        rs matches Some(b) ==> is_name(b),
        rq is None ==> rs is None,
    ensures
        types_syntax(s, i) == Ok::<(Option<Seq<char>>, Option<Seq<char>>), ParseError>((rq, rs)),
{
    match (rq, rs) {
        (Some(a), Some(b)) => {
            let arrow = seq![' ', '-', '>', ' '];
            lemma_written_split(s, i, seq![' '] + a + arrow, b);
            lemma_written_split(s, i, seq![' '] + a, arrow);
            lemma_written_split(s, i, seq![' '], a);
            lemma_char_at(s, i, ' ');
            let e = i + 1 + a.len();
            assert(s[e + 0] == arrow[0]);
            assert(s[e + 1] == arrow[1]);
            assert(s[e + 2] == arrow[2]);
            assert(s[e + 3] == arrow[3]);
            assert(s[i + 1 + 0] == a[0]);
            assert(s[e + 4 + 0] == b[0]);
            lemma_name_run(s, i + 1, a);
            lemma_name_run(s, e + 4, b);
            assert(blank_end(s, i + 1) == i + 1);
            assert(blank_end(s, e + 1) == e + 1);
            assert(blank_end(s, e) == e + 1);
            assert(blank_end(s, e + 4) == e + 4);
            assert(blank_end(s, e + 3) == e + 4);
            assert(blank_end(s, s.len() as int) == s.len());
        },
        (Some(a), None) => {
            lemma_written_split(s, i, seq![' '], a);
            lemma_char_at(s, i, ' ');
            assert(s[i + 1 + 0] == a[0]);
            lemma_name_run(s, i + 1, a);
            assert(blank_end(s, i + 1) == i + 1);
            assert(blank_end(s, s.len() as int) == s.len());
        },
        _ => {
            assert(blank_end(s, i) == i);
        },
    }
}


/// Where the parts of a written endpoint stand, and how each part reads.
#[verifier::rlimit(40)]
proof fn lemma_endpoint_parts(
    method: Seq<char>,
    items: Seq<RawPathItem>,
    vs: Seq<RawVariable>,
    rq: Option<Seq<char>>,
    rs: Option<Seq<char>>,
)
    requires
        is_name(method),
        method_of(method) is Some,
        items.len() > 0,
        forall|k: int| 0 <= k < items.len() ==> item_ok(#[trigger] items[k]),
        forall|k: int| 0 <= k < vs.len() ==> variable_ok(#[trigger] vs[k]),
        rq matches Some(a) ==> is_name(a),
        rs matches Some(b) ==> is_name(b),
        rq is None ==> rs is None,
    ensures
        ({
            let s = render_endpoint(method, items, vs, rq, rs);
            let i = method.len() as int;
            let k = i + 1 + render_path(items).len();
            let l = k + render_query_params(vs).len();
            &&& method_syntax(s, 0) == Ok::<(Seq<char>, int), ParseError>((method, i))
            &&& blank_end(s, i) == i + 1
            &&& path_syntax(s, i + 1) == Ok::<(Seq<RawPathItem>, int), ParseError>((items, k))
            &&& query_params_syntax(s, k) == Ok::<(Seq<RawVariable>, int), ParseError>((vs, l))
            &&& types_syntax(s, l) == Ok::<(Option<Seq<char>>, Option<Seq<char>>), ParseError>((rq, rs))
        }),
{
    let s = render_endpoint(method, items, vs, rq, rs);
    let path = render_path(items);
    let params = render_query_params(vs);
    let types = render_types(rq, rs);
    assert(written_at(s, 0, s));
    lemma_written_split(s, 0, method + seq![' '] + path + params, types);
    lemma_written_split(s, 0, method + seq![' '] + path, params);
    lemma_written_split(s, 0, method + seq![' '], path);
    lemma_written_split(s, 0, method, seq![' ']);
    let i = method.len() as int;
    let j = i + 1;
    let k = j + path.len();
    let l = k + params.len();
    lemma_char_at(s, i, ' ');
    lemma_name_run(s, 0, method);
    assert(path[0] == '/');
    assert(s[j + 0] == path[0]);
    assert(blank_end(s, j) == j);
    assert(blank_end(s, i) == j);
    if vs.len() > 0 {
        assert(params[0] == '?');
        assert(s[k + 0] == params[0]);
    }
    if rq is Some {
        assert(types[0] == ' ');
        assert(s[l + 0] == types[0]);
        if vs.len() == 0 {
            assert(s[k] == s[l]);
        }
    }
    assert(s.len() == l + types.len());
    lemma_path_items(s, j, items);
    lemma_query_params(s, k, vs);
    lemma_types(s, l, rq, rs);
}

proof fn lemma_endpoint_syntax(
    method: Seq<char>,
    items: Seq<RawPathItem>,
    vs: Seq<RawVariable>,
    rq: Option<Seq<char>>,
    rs: Option<Seq<char>>,
)
    requires
        is_name(method),
        method_of(method) is Some,
        items.len() > 0,
        forall|k: int| 0 <= k < items.len() ==> item_ok(#[trigger] items[k]),
        forall|k: int| 0 <= k < vs.len() ==> variable_ok(#[trigger] vs[k]),
        rq matches Some(a) ==> is_name(a),
        rs matches Some(b) ==> is_name(b),
        rq is None ==> rs is None,
    ensures
        endpoint_syntax(render_endpoint(method, items, vs, rq, rs)) == Ok::<RawEndpoint, ParseError>(
            RawEndpoint {
                method,
                path: items,
                query_params: vs,
                request_type: rq,
                response_type: rs,
            },
        ),
{
    lemma_endpoint_parts(method, items, vs, rq, rs);
}

/// How a path component as written stands in the model, its type name known.
pub open spec fn item_view(item: RawPathItem) -> PathView {
    match item {
        RawPathItem::Segment(t) => PathView::Segment(t),
        RawPathItem::Variable(v) => PathView::Variable(v.name, type_of(v.ty)->Some_0),
    }
}

/// How a variable as written stands in the model, its type name known.
pub open spec fn variable_view(v: RawVariable) -> VariableView {
    VariableView { name: v.name, ty: type_of(v.ty)->Some_0 }
}

pub open spec fn item_typed(item: RawPathItem) -> bool {
    match item {
        RawPathItem::Segment(_) => true,
        RawPathItem::Variable(v) => type_of(v.ty) is Some,
    }
}

proof fn lemma_convert_path(items: Seq<RawPathItem>)
    requires
        forall|k: int| 0 <= k < items.len() ==> item_typed(#[trigger] items[k]),
    ensures
        convert_path(items) == Ok::<Seq<PathView>, ParseError>(items.map_values(|x: RawPathItem| item_view(x))),
    decreases items.len(),
{
    if items.len() == 0 {
        assert(items.map_values(|x: RawPathItem| item_view(x)) =~= Seq::<PathView>::empty());
    } else {
        let front = items.drop_last();
        assert forall|k: int| 0 <= k < front.len() implies item_typed(#[trigger] front[k]) by {
            assert(item_typed(items[k]));
        }
        lemma_convert_path(front);
        assert(item_typed(items[items.len() - 1]));
        assert(front.map_values(|x: RawPathItem| item_view(x)).push(item_view(items.last()))
            =~= items.map_values(|x: RawPathItem| item_view(x)));
    }
}

proof fn lemma_convert_variables(vs: Seq<RawVariable>)
    requires
        forall|k: int| 0 <= k < vs.len() ==> type_of(#[trigger] vs[k].ty) is Some,
    ensures
        convert_variables(vs) == Ok::<Seq<VariableView>, ParseError>(vs.map_values(|x: RawVariable| variable_view(x))),
    decreases vs.len(),
{
    if vs.len() == 0 {
        assert(vs.map_values(|x: RawVariable| variable_view(x)) =~= Seq::<VariableView>::empty());
    } else {
        let front = vs.drop_last();
        assert forall|k: int| 0 <= k < front.len() implies type_of(#[trigger] front[k].ty) is Some by {
            assert(type_of(vs[k].ty) is Some);
        }
        lemma_convert_variables(front);
        assert(type_of(vs[vs.len() - 1].ty) is Some);
        assert(front.map_values(|x: RawVariable| variable_view(x)).push(variable_view(vs.last()))
            =~= vs.map_values(|x: RawVariable| variable_view(x)));
    }
}

/// Endpoint notation written out from its parts reads back as exactly those parts:
/// every bare path component as a segment and every braced `name:type` component as
/// a variable of that name and type, path components and query parameters in the
/// order written (no query parameters when no `?` clause is written), and the type
/// names as written: both absent without a type clause, and the response type absent
/// when only a request type is written.
pub proof fn law_round_trip(
    m: Method,
    method: Seq<char>,
    items: Seq<RawPathItem>,
    vs: Seq<RawVariable>,
    rq: Option<Seq<char>>,
    rs: Option<Seq<char>>,
)
    requires
        same_letters(method, method_name(m)),
        items.len() > 0,
        forall|k: int| 0 <= k < items.len() ==> item_ok(#[trigger] items[k]) && item_typed(items[k]),
        forall|k: int| 0 <= k < vs.len() ==> variable_ok(#[trigger] vs[k]) && type_of(vs[k].ty) is Some,
        rq matches Some(a) ==> is_name(a),
        rs matches Some(b) ==> is_name(b),
        rq is None ==> rs is None,
    ensures
        endpoint_of(render_endpoint(method, items, vs, rq, rs)) == Ok::<EndpointView, ParseError>(
            EndpointView {
                method: m,
                path: items.map_values(|x: RawPathItem| item_view(x)),
                query_params: vs.map_values(|x: RawVariable| variable_view(x)),
                request_type: rq,
                response_type: rs,
            },
        ),
{
    law_method_any_case(m, method);
    assert forall|k: int| 0 <= k < method.len() implies is_name_char(#[trigger] method[k]) by {
        assert(fold_case(method[k]) == fold_case(method_name(m)[k]));
    }
    lemma_endpoint_syntax(method, items, vs, rq, rs);
    lemma_convert_path(items);
    lemma_convert_variables(vs);
}


/// The type clause never makes an endpoint node fail to convert. A request type is
/// taken only from a fourth child of rule `request_type`, else both type names are
/// absent; a response type only after it, from a fifth child of rule
/// `response_type`, else the response type is absent while the request type stays.
pub proof fn law_type_clause(p: Pair)
    requires
        p.wf(),
        p.rule == Rule::endpoint,
    ensures
        convert_endpoint(endpoint_raw(p)) is Ok <==> convert_path(path_items_raw(p.inner@[1].inner@)) is Ok
            && convert_variables(variables_raw(p.inner@[2].inner@)) is Ok,
        convert_endpoint(endpoint_raw(p)) matches Ok(e) ==> (e.request_type, e.response_type)
            == endpoint_types(p),
        !(p.inner@.len() > 3 && p.inner@[3].rule == Rule::request_type) ==> endpoint_types(p) == (
        None::<Seq<char>>, None::<Seq<char>>),
        p.inner@.len() > 3 && p.inner@[3].rule == Rule::request_type && !(p.inner@.len() > 4
            && p.inner@[4].rule == Rule::response_type) ==> endpoint_types(p) == (
        Some(p.inner@[3].text@), None::<Seq<char>>),
{
}

} // verus!
