use utoipa_gen::attrs::{get_deprecated, get_generic_type_param_index, has_deprecated, GenericParam};
use utoipa_gen::ext::PathOperation;
use utoipa_gen::rocket::{rocket_resolve_operation, RocketPath};
use utoipa_gen::rust_type::{PathArguments, TypeSegment, RustType, TypePath};
use utoipa_gen::tokens::{Attribute, Token};
use utoipa_gen::type_tree::from_type;

fn ident(s: &str) -> Token {
    Token::Ident(s.to_string())
}

fn lit(s: &str) -> Token {
    Token::Literal(format!("\"{s}\""))
}

fn attr(path: &str, args: Vec<Token>) -> Attribute {
    Attribute { path: vec![path.to_string()], args, name_value_str: None }
}

#[test]
fn rocket_route_with_path_only() {
    let route = RocketPath::parse(&vec![lit("/hello/<name>"), Token::Punct(','), ident("format")]).ok().unwrap();
    assert_eq!(route.path, "/hello/<name>");
    assert_eq!(route.operation, None);
    assert_eq!(route.body, None);
}

#[test]
fn rocket_route_with_method_uri_and_data() {
    let tokens = vec![
        ident("POST"), Token::Punct(','), ident("uri"), Token::Punct('='), lit("/pets"),
        Token::Punct(','), ident("data"), Token::Punct('='), lit("<pet>"),
    ];
    let route = RocketPath::parse(&tokens).ok().unwrap();
    assert_eq!(route.path, "/pets");
    assert_eq!(route.operation, Some("POST".to_string()));
    assert_eq!(route.body, Some("<pet>".to_string()));
}

#[test]
fn rocket_route_errors() {
    let err = |tokens: Vec<Token>| RocketPath::parse(&tokens).err().unwrap();
    assert_eq!(err(vec![]), "unexpected end of input, expected string literal");
    assert_eq!(err(vec![ident("GET")]), "expected `,`");
    assert_eq!(err(vec![ident("GET"), Token::Punct(',')]), "unexpected end of input, expected identifier");
    assert_eq!(err(vec![ident("GET"), Token::Punct(','), ident("uri"), lit("/x")]), "expected `=`");
    assert_eq!(
        err(vec![ident("GET"), Token::Punct(','), ident("uri"), Token::Punct('='), ident("x")]),
        "expected string literal"
    );
}

#[test]
fn rocket_operation_from_attributes() {
    let attrs = vec![
        attr("doc", vec![]),
        attr("get", vec![lit("/items/<id>")]),
        attr("post", vec![lit("/other")]),
    ];
    let (op, route) = rocket_resolve_operation(&attrs).ok().unwrap().unwrap();
    assert_eq!(op, PathOperation::Get);
    assert_eq!(route.path, "/items/<id>");

    let attrs = vec![attr(
        "route",
        vec![ident("DELETE"), Token::Punct(','), ident("uri"), Token::Punct('='), lit("/items")],
    )];
    let (op, _) = rocket_resolve_operation(&attrs).ok().unwrap().unwrap();
    assert_eq!(op, PathOperation::Delete);

    assert!(rocket_resolve_operation(&vec![attr("doc", vec![])]).ok().unwrap().is_none());
}

#[test]
fn rocket_operation_errors() {
    let bad = vec![attr("get", vec![ident("GET")])];
    assert_eq!(
        rocket_resolve_operation(&bad).err().unwrap(),
        "parse path of path operation attribute: expected `,`"
    );
    let route_without_method = vec![attr("route", vec![lit("/x")])];
    assert_eq!(
        rocket_resolve_operation(&route_without_method).err().unwrap(),
        "invalid PathOperation expected one of: get, post, put, delete, options, head, patch, trace, connect"
    );
}

#[test]
fn deprecated_attribute() {
    let attrs = vec![attr("doc", vec![]), attr("deprecated", vec![])];
    assert!(has_deprecated(&attrs));
    assert!(get_deprecated(&attrs).unwrap().0);
    assert!(!has_deprecated(&vec![attr("doc", vec![])]));
    assert!(get_deprecated(&vec![]).is_none());
}

#[test]
fn generic_type_param_index_counts_type_params_only() {
    let params = vec![
        GenericParam::Lifetime("a".to_string()),
        GenericParam::Type("T".to_string()),
        GenericParam::Const("N".to_string()),
        GenericParam::Type("U".to_string()),
    ];
    let tree = |name: &str| {
        from_type(&RustType::Path(TypePath {
            segments: vec![TypeSegment { ident: name.to_string(), arguments: PathArguments::Empty }],
        }))
        .ok()
        .unwrap()
    };
    assert_eq!(get_generic_type_param_index(&params, &tree("U")), Some(1));
    assert_eq!(get_generic_type_param_index(&params, &tree("T")), Some(0));
    assert_eq!(get_generic_type_param_index(&params, &tree("N")), None);
    assert_eq!(get_generic_type_param_index(&params, &tree("V")), None);
}
