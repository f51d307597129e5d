//! The endpoint notation as spec functions over the input's characters.
//!
//! ```text
//! endpoint      = method BLANK+ path query_params [BLANK+ request_type [BLANK* "->" [BLANK* response_type]]] BLANK* END
//! method        = "GET" | "POST" | "PUT" | "DELETE"          (any letter case)
//! path          = ("/" (segment | "{" variable "}"))+
//! segment       = NAME
//! variable      = name ":" variable_type
//! name          = NAME
//! variable_type = NAME
//! query_params  = ["?" variable ("&" variable)*]
//! request_type  = NAME
//! response_type = NAME
//! NAME          = (ASCII letter | ASCII digit | "_")+
//! BLANK         = " " | TAB
//! ```
//!
//! Each `*_syntax` function reads one rule at position `i` and gives what it
//! read and where it stopped, or the syntax error at the first position that
//! does not fit.
use vstd::prelude::*;
use crate::model::{Method, ParseError, Rule, SyntaxError, VariableType};

verus! {

pub open spec fn is_name_char(c: char) -> bool {
    ('a' <= c && c <= 'z') || ('A' <= c && c <= 'Z') || ('0' <= c && c <= '9') || c == '_'
}

pub open spec fn is_blank(c: char) -> bool {
    c == ' ' || c == '\t'
}

/// `s[i] == c`, with `i` in range.
pub open spec fn at(s: Seq<char>, i: int, c: char) -> bool {
    0 <= i < s.len() && s[i] == c
}

/// End of the run of name characters that starts at `i`.
pub open spec fn name_end(s: Seq<char>, i: int) -> int
    decreases s.len() - i,
{
    if 0 <= i < s.len() && is_name_char(s[i]) {
        name_end(s, i + 1)
    } else {
        i
    }
}

/// End of the run of blanks that starts at `i`.
pub open spec fn blank_end(s: Seq<char>, i: int) -> int
    decreases s.len() - i,
{
    if 0 <= i < s.len() && is_blank(s[i]) {
        blank_end(s, i + 1)
    } else {
        i
    }
}

/// ASCII letters folded to lower case; other characters unchanged.
pub open spec fn fold_case(c: char) -> int {
    if 'A' <= c && c <= 'Z' {
        c as int + 32
    } else {
        c as int
    }
}

/// `t` spells `word` in some letter case.
pub open spec fn same_letters(t: Seq<char>, word: Seq<char>) -> bool {
    &&& t.len() == word.len()
    &&& forall|k: int| 0 <= k < t.len() ==> fold_case(#[trigger] t[k]) == fold_case(word[k])
}

/// The method that a token names, in any letter case.
pub open spec fn method_of(t: Seq<char>) -> Option<Method> {
    if same_letters(t, seq!['G', 'E', 'T']) {
        Some(Method::GET)
    } else if same_letters(t, seq!['P', 'O', 'S', 'T']) {
        Some(Method::POST)
    } else if same_letters(t, seq!['P', 'U', 'T']) {
        Some(Method::PUT)
    } else if same_letters(t, seq!['D', 'E', 'L', 'E', 'T', 'E']) {
        Some(Method::DELETE)
    } else {
        None
    }
}

/// The variable type that a token names, in any letter case.
pub open spec fn type_of(t: Seq<char>) -> Option<VariableType> {
    if same_letters(t, seq!['s', 't', 'r', 'i', 'n', 'g']) {
        Some(VariableType::String)
    } else if same_letters(t, seq!['s', 'h', 'o', 'r', 't']) {
        Some(VariableType::Short)
    } else if same_letters(t, seq!['i', 'n', 't']) {
        Some(VariableType::Int)
    } else if same_letters(t, seq!['l', 'o', 'n', 'g']) {
        Some(VariableType::Long)
    } else if same_letters(t, seq!['f', 'l', 'o', 'a', 't']) {
        Some(VariableType::Float)
    } else if same_letters(t, seq!['d', 'o', 'u', 'b', 'l', 'e']) {
        Some(VariableType::Double)
    } else if same_letters(t, seq!['b', 'o', 'o', 'l']) {
        Some(VariableType::Bool)
    } else {
        None
    }
}

pub open spec fn syntax_error(position: int, expected: Rule) -> ParseError {
    ParseError::Syntax(SyntaxError { position: position as usize, expected })
}

/// A `name:type` pair as written.
pub struct RawVariable {
    pub name: Seq<char>,
    pub ty: Seq<char>,
}

/// A path component as written.
pub enum RawPathItem {
    Segment(Seq<char>),
    Variable(RawVariable),
}

/// An endpoint as written: its tokens, before any conversion.
pub struct RawEndpoint {
    pub method: Seq<char>,
    pub path: Seq<RawPathItem>,
    pub query_params: Seq<RawVariable>,
    pub request_type: Option<Seq<char>>,
    pub response_type: Option<Seq<char>>,
}

/// A non-empty name token of rule `rule` at `i`.
pub open spec fn token_syntax(s: Seq<char>, i: int, rule: Rule) -> Result<(Seq<char>, int), ParseError> {
    let j = name_end(s, i);
    if j == i {
        Err(syntax_error(i, rule))
    } else {
        Ok((s.subrange(i, j), j))
    }
}

pub open spec fn method_syntax(s: Seq<char>, i: int) -> Result<(Seq<char>, int), ParseError> {
    let j = name_end(s, i);
    if method_of(s.subrange(i, j)) is Some {
        Ok((s.subrange(i, j), j))
    } else {
        Err(syntax_error(i, Rule::method))
    }
}

pub open spec fn variable_syntax(s: Seq<char>, i: int) -> Result<(RawVariable, int), ParseError> {
    match token_syntax(s, i, Rule::name) {
        Err(e) => Err(e),
        Ok((name, j)) => if !at(s, j, ':') {
            Err(syntax_error(j, Rule::variable))
        } else {
            match token_syntax(s, j + 1, Rule::variable_type) {
                Err(e) => Err(e),
                Ok((ty, k)) => Ok((RawVariable { name, ty }, k)),
            }
        },
    }
}

/// One path component, after its `/`.
pub open spec fn path_item_syntax(s: Seq<char>, i: int) -> Result<(RawPathItem, int), ParseError> {
    if at(s, i, '{') {
        match variable_syntax(s, i + 1) {
            Err(e) => Err(e),
            Ok((v, j)) => if at(s, j, '}') {
                Ok((RawPathItem::Variable(v), j + 1))
            } else {
                Err(syntax_error(j, Rule::variable))
            },
        }
    } else {
        match token_syntax(s, i, Rule::segment) {
            Err(e) => Err(e),
            Ok((seg, j)) => Ok((RawPathItem::Segment(seg), j)),
        }
    }
}

pub proof fn lemma_name_end(s: Seq<char>, i: int)
    requires
        0 <= i <= s.len(),
    ensures
        i <= name_end(s, i) <= s.len(),
        forall|k: int| i <= k < name_end(s, i) ==> is_name_char(#[trigger] s[k]),
        name_end(s, i) < s.len() ==> !is_name_char(s[name_end(s, i)]),
    decreases s.len() - i,
{
    if i < s.len() && is_name_char(s[i]) {
        lemma_name_end(s, i + 1);
    }
}

pub proof fn lemma_variable_progress(s: Seq<char>, i: int)
    requires
        0 <= i <= s.len(),
    ensures
        variable_syntax(s, i) matches Ok((_, j)) ==> i < j <= s.len(),
{
    lemma_name_end(s, i);
    let j = name_end(s, i);
    if at(s, j, ':') {
        lemma_name_end(s, j + 1);
    }
}

pub proof fn lemma_path_item_progress(s: Seq<char>, i: int)
    requires
        0 <= i <= s.len(),
    ensures
        path_item_syntax(s, i) matches Ok((_, j)) ==> i < j <= s.len(),
{
    lemma_name_end(s, i);
    if at(s, i, '{') {
        lemma_variable_progress(s, i + 1);
    }
}

/// Path components from `i` on, each introduced by `/`, up to the first position without one.
pub open spec fn path_items_syntax(s: Seq<char>, i: int) -> Result<(Seq<RawPathItem>, int), ParseError>
    decreases s.len() - i,
{
    if at(s, i, '/') {
        match path_item_syntax(s, i + 1) {
            Err(e) => Err(e),
            Ok((item, j)) => {
                proof {
                    lemma_path_item_progress(s, i + 1);
                }
                match path_items_syntax(s, j) {
                    Err(e) => Err(e),
                    Ok((rest, k)) => Ok((seq![item] + rest, k)),
                }
            },
        }
    } else {
        Ok((Seq::empty(), i))
    }
}

pub open spec fn path_syntax(s: Seq<char>, i: int) -> Result<(Seq<RawPathItem>, int), ParseError> {
    if at(s, i, '/') {
        path_items_syntax(s, i)
    } else {
        Err(syntax_error(i, Rule::path))
    }
}

/// Further query parameters from `i` on, each introduced by `&`.
pub open spec fn more_params_syntax(s: Seq<char>, i: int) -> Result<(Seq<RawVariable>, int), ParseError>
    decreases s.len() - i,
{
    if at(s, i, '&') {
        match variable_syntax(s, i + 1) {
            Err(e) => Err(e),
            Ok((v, j)) => {
                proof {
                    lemma_variable_progress(s, i + 1);
                }
                match more_params_syntax(s, j) {
                    Err(e) => Err(e),
                    Ok((rest, k)) => Ok((seq![v] + rest, k)),
                }
            },
        }
    } else {
        Ok((Seq::empty(), i))
    }
}

/// The query parameter list, empty when no `?` follows.
pub open spec fn query_params_syntax(s: Seq<char>, i: int) -> Result<(Seq<RawVariable>, int), ParseError> {
    if at(s, i, '?') {
        match variable_syntax(s, i + 1) {
            Err(e) => Err(e),
            Ok((v, j)) => match more_params_syntax(s, j) {
                Err(e) => Err(e),
                Ok((rest, k)) => Ok((seq![v] + rest, k)),
            },
        }
    } else {
        Ok((Seq::empty(), i))
    }
}

/// Blanks up to the end of the input, after position `i`.
pub open spec fn ends_at(s: Seq<char>, i: int) -> bool {
    blank_end(s, i) == s.len()
}

/// What may follow `->` at `i`: blanks, then an optional response type, then the end.
pub open spec fn response_syntax(s: Seq<char>, i: int) -> Result<Option<Seq<char>>, ParseError> {
    let a = blank_end(s, i);
    if a == s.len() {
        Ok(None)
    } else {
        match token_syntax(s, a, Rule::response_type) {
            Err(e) => Err(e),
            Ok((t, b)) => if ends_at(s, b) {
                Ok(Some(t))
            } else {
                Err(syntax_error(blank_end(s, b), Rule::endpoint))
            },
        }
    }
}

/// The optional trailing type clause, from the end `i` of the query parameters.
pub open spec fn types_syntax(s: Seq<char>, i: int) -> Result<(Option<Seq<char>>, Option<Seq<char>>), ParseError> {
    let a = blank_end(s, i);
    if a == s.len() {
        Ok((None, None))
    } else if a == i {
        Err(syntax_error(i, Rule::endpoint))
    } else {
        match token_syntax(s, a, Rule::request_type) {
            Err(e) => Err(e),
            Ok((rq, b)) => {
                let c = blank_end(s, b);
                if c == s.len() {
                    Ok((Some(rq), None))
                } else if at(s, c, '-') && at(s, c + 1, '>') {
                    match response_syntax(s, c + 2) {
                        Err(e) => Err(e),
                        Ok(rs) => Ok((Some(rq), rs)),
                    }
                } else {
                    Err(syntax_error(c, Rule::endpoint))
                }
            },
        }
    }
}

/// The whole input read as an endpoint.
pub open spec fn endpoint_syntax(s: Seq<char>) -> Result<RawEndpoint, ParseError> {
    match method_syntax(s, 0) {
        Err(e) => Err(e),
        Ok((method, i)) => {
            let j = blank_end(s, i);
            if j == i {
                Err(syntax_error(i, Rule::endpoint))
            } else {
                match path_syntax(s, j) {
                    Err(e) => Err(e),
                    Ok((path, k)) => match query_params_syntax(s, k) {
                        Err(e) => Err(e),
                        Ok((query_params, l)) => match types_syntax(s, l) {
                            Err(e) => Err(e),
                            Ok((request_type, response_type)) => Ok(
                                RawEndpoint { method, path, query_params, request_type, response_type },
                            ),
                        },
                    },
                }
            }
        },
    }
}

// ---------------------------------------------------------------------------
// Character-level scanning.

pub fn is_name_char_exec(c: char) -> (r: bool)
    ensures
        r == is_name_char(c),
{
    ('a' <= c && c <= 'z') || ('A' <= c && c <= 'Z') || ('0' <= c && c <= '9') || c == '_'
}

pub fn char_at(s: &Vec<char>, len: usize, i: usize, c: char) -> (r: bool)
    requires
        len == s@.len(),
    ensures
        r == at(s@, i as int, c),
{
    i < len && s[i] == c
}

pub fn scan_name(s: &Vec<char>, len: usize, i: usize) -> (j: usize)
    requires
        len == s@.len(),
        i <= len,
    ensures
        j as int == name_end(s@, i as int),
        i <= j <= len,
{
    let mut j: usize = i;
    while j < len && is_name_char_exec(s[j])
        invariant
            len == s@.len(),
            i <= j <= len,
            name_end(s@, j as int) == name_end(s@, i as int),
        decreases len - j,
    {
        j = j + 1;
    }
    j
}

pub fn scan_blanks(s: &Vec<char>, len: usize, i: usize) -> (j: usize)
    requires
        len == s@.len(),
        i <= len,
    ensures
        j as int == blank_end(s@, i as int),
        i <= j <= len,
{
    let mut j: usize = i;
    while j < len && (s[j] == ' ' || s[j] == '\t')
        invariant
            len == s@.len(),
            i <= j <= len,
            blank_end(s@, j as int) == blank_end(s@, i as int),
        decreases len - j,
    {
        j = j + 1;
    }
    j
}


pub fn fold_case_exec(c: char) -> (r: u32)
    ensures
        r as int == fold_case(c),
{
    if 'A' <= c && c <= 'Z' {
        (c as u32) + 32
    } else {
        c as u32
    }
}

/// Whether `t` spells `word` in some letter case.
pub fn spells(t: &str, word: &Vec<char>) -> (r: bool)
    ensures
        r == same_letters(t@, word@),
{
    let n = t.unicode_len();
    if n != word.len() {
        return false;
    }
    let mut k: usize = 0;
    while k < n
        invariant
            n == t@.len(),
            n == word@.len(),
            k <= n,
            forall|m: int| 0 <= m < k ==> fold_case(#[trigger] t@[m]) == fold_case(word@[m]),
        decreases n - k,
    {
        if fold_case_exec(t.get_char(k)) != fold_case_exec(word[k]) {
            return false;
        }
        k = k + 1;
    }
    true
}

pub fn method_from(t: &str) -> (r: Option<Method>)
    ensures
        r == method_of(t@),
{
    if spells(t, &vec!['G', 'E', 'T']) {
        Some(Method::GET)
    } else if spells(t, &vec!['P', 'O', 'S', 'T']) {
        Some(Method::POST)
    } else if spells(t, &vec!['P', 'U', 'T']) {
        Some(Method::PUT)
    } else if spells(t, &vec!['D', 'E', 'L', 'E', 'T', 'E']) {
        Some(Method::DELETE)
    } else {
        None
    }
}

pub fn type_from(t: &str) -> (r: Option<VariableType>)
    ensures
        r == type_of(t@),
{
    if spells(t, &vec!['s', 't', 'r', 'i', 'n', 'g']) {
        Some(VariableType::String)
    } else if spells(t, &vec!['s', 'h', 'o', 'r', 't']) {
        Some(VariableType::Short)
    } else if spells(t, &vec!['i', 'n', 't']) {
        Some(VariableType::Int)
    } else if spells(t, &vec!['l', 'o', 'n', 'g']) {
        Some(VariableType::Long)
    } else if spells(t, &vec!['f', 'l', 'o', 'a', 't']) {
        Some(VariableType::Float)
    } else if spells(t, &vec!['d', 'o', 'u', 'b', 'l', 'e']) {
        Some(VariableType::Double)
    } else if spells(t, &vec!['b', 'o', 'o', 'l']) {
        Some(VariableType::Bool)
    } else {
        None
    }
}


pub fn chars_of(input: &str) -> (r: Vec<char>)
    ensures
        r@ == input@,
{
    let mut out: Vec<char> = Vec::new();
    for c in it: input.chars()
        invariant
            out@ == it.seq().subrange(0, it.index() as int),
    {
        out.push(c);
    }
    out
}

} // verus!
