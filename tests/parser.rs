use idl_parser::{Endpoint, EndpointParser, Method, Path, RequestType, Rule, Variable, VariableType};

#[test]
fn test_variable() {
    let pair = EndpointParser::parse(Rule::variable, "Name:string").unwrap();
    let _: Variable = Variable::try_from(&pair).unwrap();
}

#[test]
fn test_method() {
    let pair = EndpointParser::parse(Rule::method, "GET").unwrap();
    let var: Method = Method::try_from(&pair).unwrap();
    assert!(var == Method::GET);
}

#[test]
fn test_path() {
    let pair = EndpointParser::parse(Rule::path, "/seg/{var:string}").unwrap();
    for ele in pair.into_inner() {
        let _path: Path = Path::try_from(&ele).unwrap();
    }
}

#[test]
fn test_query_params() {
    let pair = EndpointParser::parse(Rule::query_params, "?a:string&b:bool").unwrap();
    let inner = pair.into_inner();
    let _params: Result<Vec<Variable>, _> = inner.iter().map(|v| Variable::try_from(v)).collect();
}

#[test]
fn test_sig() {
    let pair = EndpointParser::parse(Rule::request_type, "fasd").unwrap();
    let request_type: RequestType = RequestType::try_from(&pair).unwrap();
    println!("{:?}", request_type);
}

#[test]
fn test_endpoint() {
    let endpoint = EndpointParser::parse_endpoint(
        "GET /register/{id:string}?type:string&order:string RQ -> RS",
    )
    .unwrap();
    assert_eq!(
        Endpoint {
            method: Method::GET,
            path: vec![
                Path::Segment("register".to_owned()),
                Path::Variable("id".to_owned(), VariableType::String)
            ],
            query_params: vec![
                Variable("type".to_owned(), VariableType::String),
                Variable("order".to_owned(), VariableType::String),
            ],
            request_type: Some("RQ".to_owned()),
            response_type: Some("RS".to_owned())
        },
        endpoint
    );
}

#[test]
fn test_endpoint_without_sig() {
    let endpoint =
        EndpointParser::parse_endpoint("GET /register/{id:string}?type:string&order:string ")
            .unwrap();
    assert_eq!(
        Endpoint {
            method: Method::GET,
            path: vec![
                Path::Segment("register".to_owned()),
                Path::Variable("id".to_owned(), VariableType::String)
            ],
            query_params: vec![
                Variable("type".to_owned(), VariableType::String),
                Variable("order".to_owned(), VariableType::String),
            ],
            request_type: None,
            response_type: None
        },
        endpoint
    );
}

#[test]
fn test_endpoint_without_query_params() {
    let endpoint = EndpointParser::parse_endpoint("GET /register/{id:string} RQ -> RS").unwrap();
    assert_eq!(
        Endpoint {
            method: Method::GET,
            path: vec![
                Path::Segment("register".to_owned()),
                Path::Variable("id".to_owned(), VariableType::String)
            ],
            query_params: vec![],
            request_type: Some("RQ".to_owned()),
            response_type: Some("RS".to_owned())
        },
        endpoint
    );
}
