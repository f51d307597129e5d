use idl_parser::{
    Endpoint, EndpointParser, Method, ParseError, Path, RequestType, ResponseType, Rule,
    SyntaxError, Variable, VariableType,
};

fn syntax(position: usize, expected: Rule) -> ParseError {
    ParseError::Syntax(SyntaxError { position, expected })
}

#[test]
fn methods_in_any_letter_case() {
    let cases = [
        ("GET", Method::GET),
        ("get", Method::GET),
        ("gEt", Method::GET),
        ("POST", Method::POST),
        ("post", Method::POST),
        ("Put", Method::PUT),
        ("DELETE", Method::DELETE),
        ("delete", Method::DELETE),
    ];
    for (text, method) in cases {
        let pair = EndpointParser::parse(Rule::method, text).unwrap();
        assert_eq!(Method::try_from(&pair).unwrap(), method);
        let endpoint = EndpointParser::parse_endpoint(&format!("{} /x", text)).unwrap();
        assert_eq!(endpoint.method, method);
    }
}

#[test]
fn unknown_method_is_a_syntax_error() {
    assert_eq!(EndpointParser::parse_endpoint("PATCH /x"), Err(syntax(0, Rule::method)));
    assert_eq!(EndpointParser::parse_endpoint("GETS /x"), Err(syntax(0, Rule::method)));
    assert_eq!(EndpointParser::parse(Rule::method, "HEAD").err(), Some(syntax(0, Rule::method)));
}

#[test]
fn variable_types_in_any_letter_case() {
    let cases = [
        ("string", VariableType::String),
        ("STRING", VariableType::String),
        ("short", VariableType::Short),
        ("Int", VariableType::Int),
        ("long", VariableType::Long),
        ("FLOAT", VariableType::Float),
        ("double", VariableType::Double),
        ("bOOl", VariableType::Bool),
    ];
    for (text, ty) in cases {
        let pair = EndpointParser::parse(Rule::variable_type, text).unwrap();
        assert_eq!(VariableType::try_from(&pair), Ok(ty));
    }
}

#[test]
fn unknown_variable_type_is_unsupported() {
    let pair = EndpointParser::parse(Rule::variable_type, "integer").unwrap();
    assert_eq!(VariableType::try_from(&pair), Err(ParseError::UnsupportType));
    assert_eq!(
        EndpointParser::parse_endpoint("GET /x/{n:integer}"),
        Err(ParseError::UnsupportType)
    );
    assert_eq!(
        EndpointParser::parse_endpoint("GET /x?n:text"),
        Err(ParseError::UnsupportType)
    );
}

#[test]
fn malformed_variable_type_is_a_syntax_error() {
    assert_eq!(
        EndpointParser::parse_endpoint("GET /x/{n:-int}"),
        Err(syntax(10, Rule::variable_type))
    );
}

#[test]
fn syntax_errors_win_over_unsupported_types() {
    assert_eq!(
        EndpointParser::parse_endpoint("GET /x/{n:integer}/{m"),
        Err(syntax(21, Rule::variable))
    );
}

#[test]
fn malformed_variables_are_syntax_errors() {
    assert_eq!(EndpointParser::parse_endpoint("GET /x/{n}"), Err(syntax(9, Rule::variable)));
    assert_eq!(EndpointParser::parse_endpoint("GET /x/{n:int"), Err(syntax(13, Rule::variable)));
    assert_eq!(EndpointParser::parse_endpoint("GET /x/{:int}"), Err(syntax(8, Rule::name)));
}

#[test]
fn empty_path_is_a_syntax_error() {
    assert_eq!(EndpointParser::parse_endpoint("GET "), Err(syntax(4, Rule::path)));
    assert_eq!(EndpointParser::parse_endpoint("GET /"), Err(syntax(5, Rule::segment)));
    assert_eq!(EndpointParser::parse_endpoint("GET/x"), Err(syntax(3, Rule::endpoint)));
}

#[test]
fn path_segments_and_variables_keep_their_order() {
    let endpoint = EndpointParser::parse_endpoint("POST /x/{n:int}").unwrap();
    assert_eq!(
        endpoint,
        Endpoint {
            method: Method::POST,
            path: vec![Path::Segment("x".to_owned()), Path::Variable("n".to_owned(), VariableType::Int)],
            query_params: vec![],
            request_type: None,
            response_type: None,
        }
    );
    let endpoint = EndpointParser::parse_endpoint("PUT /{a:long}/b/{c:bool}/d").unwrap();
    assert_eq!(
        endpoint.path,
        vec![
            Path::Variable("a".to_owned(), VariableType::Long),
            Path::Segment("b".to_owned()),
            Path::Variable("c".to_owned(), VariableType::Bool),
            Path::Segment("d".to_owned()),
        ]
    );
}

#[test]
fn query_params_keep_their_order() {
    let endpoint = EndpointParser::parse_endpoint("GET /x?c:short&a:double&b:float").unwrap();
    assert_eq!(
        endpoint.query_params,
        vec![
            Variable("c".to_owned(), VariableType::Short),
            Variable("a".to_owned(), VariableType::Double),
            Variable("b".to_owned(), VariableType::Float),
        ]
    );
}

#[test]
fn request_type_without_response_type() {
    let endpoint = EndpointParser::parse_endpoint("GET /x RQ").unwrap();
    assert_eq!(endpoint.request_type, Some("RQ".to_owned()));
    assert_eq!(endpoint.response_type, None);
    let endpoint = EndpointParser::parse_endpoint("GET /x RQ -> ").unwrap();
    assert_eq!(endpoint.request_type, Some("RQ".to_owned()));
    assert_eq!(endpoint.response_type, None);
}

#[test]
fn type_clause_without_blanks_round_the_arrow() {
    let endpoint = EndpointParser::parse_endpoint("DELETE /x?a:int Req->Resp").unwrap();
    assert_eq!(endpoint.request_type, Some("Req".to_owned()));
    assert_eq!(endpoint.response_type, Some("Resp".to_owned()));
}

#[test]
fn trailing_text_is_a_syntax_error() {
    assert_eq!(EndpointParser::parse_endpoint("GET /x RQ -> RS extra"), Err(syntax(16, Rule::endpoint)));
    assert_eq!(EndpointParser::parse_endpoint("GET /x RQ RS"), Err(syntax(10, Rule::endpoint)));
}

#[test]
fn converters_check_the_rule_first() {
    let pair = EndpointParser::parse(Rule::segment, "seg").unwrap();
    assert_eq!(Variable::try_from(&pair).err(), Some(ParseError::UnexpectRule));
    assert_eq!(Method::try_from(&pair).err(), Some(ParseError::UnexpectRule));
    assert_eq!(VariableType::try_from(&pair).err(), Some(ParseError::UnexpectRule));
    assert_eq!(RequestType::try_from(&pair).err().unwrap(), ParseError::UnexpectRule);
    assert_eq!(ResponseType::try_from(&pair).err().unwrap(), ParseError::UnexpectRule);
    assert_eq!(Endpoint::try_from(&pair).err(), Some(ParseError::UnexpectRule));
    let method = EndpointParser::parse(Rule::method, "PUT").unwrap();
    assert_eq!(Path::try_from(&method).err(), Some(ParseError::UnexpectRule));
    assert_eq!(Path::try_from(&pair).unwrap(), Path::Segment("seg".to_owned()));
}

#[test]
fn response_type_is_taken_only_after_a_request_type() {
    let endpoint = EndpointParser::parse(Rule::endpoint, "GET /x A -> B").unwrap();
    assert_eq!(endpoint.as_rule(), Rule::endpoint);
    let mut inner = endpoint.into_inner();
    assert_eq!(inner.len(), 5);
    // without its request type child, the response type child is not taken either
    let response = inner.pop().unwrap();
    inner.pop();
    inner.push(response);
    let probed = idl_parser::Pair { rule: Rule::endpoint, text: String::new(), inner };
    let converted = Endpoint::try_from(&probed).unwrap();
    assert_eq!(converted.request_type, None);
    assert_eq!(converted.response_type, None);
}

#[test]
fn node_text_is_the_matched_text() {
    let pair = EndpointParser::parse(Rule::variable, "Name:string rest").unwrap();
    assert_eq!(pair.as_str(), "Name:string");
    let inner = pair.into_inner();
    assert_eq!(inner[0].as_rule(), Rule::name);
    assert_eq!(inner[0].as_str(), "Name");
    assert_eq!(inner[1].as_rule(), Rule::variable_type);
    assert_eq!(inner[1].as_str(), "string");
}

#[test]
fn non_ascii_input() {
    assert_eq!(EndpointParser::parse_endpoint("GET /é"), Err(syntax(5, Rule::segment)));
    let endpoint = EndpointParser::parse_endpoint("GET /x\tRQ").unwrap();
    assert_eq!(endpoint.request_type, Some("RQ".to_owned()));
}
