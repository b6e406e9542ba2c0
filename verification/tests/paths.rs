use std::str::FromStr;
use utoipa_gen::ext::{
    actix_resolve_path, axum_resolve_path, is_anonymous_arg, is_valid_actix_route_attribute,
    is_valid_route_type, route_methods, ArgValue, MacroArg, PathOperation, PathOperations,
    PathOperations2,
};
use utoipa_gen::rocket::{decimal_chars, rocket_resolve_path, sort_args_by_name, RocketPath};
use utoipa_gen::tokens::Token;

fn arg_parts(arg: &MacroArg) -> (bool, String, String) {
    match arg {
        MacroArg::Path(v) => (false, v.name.clone(), v.original_name.clone()),
        MacroArg::Query(v) => (true, v.name.clone(), v.original_name.clone()),
    }
}

fn path_arg(name: &str, original: &str) -> (bool, String, String) {
    (false, name.to_string(), original.to_string())
}

fn query_arg(name: &str, original: &str) -> (bool, String, String) {
    (true, name.to_string(), original.to_string())
}

#[test]
fn actix_path_with_regex_argument_is_named() {
    let resolved = actix_resolve_path(&Some("/foo/{id}/{name:.*}".to_string())).unwrap();
    assert_eq!(resolved.path, "/foo/{id}/{name}");
    let args: Vec<_> = resolved.args.iter().map(arg_parts).collect();
    assert_eq!(args, vec![path_arg("id", "{id}"), path_arg("name", "{name:.*}")]);
}

#[test]
fn actix_unnamed_capture_becomes_arg0() {
    let resolved = actix_resolve_path(&Some("/files/{_:.*}".to_string())).unwrap();
    assert_eq!(resolved.path, "/files/{arg0}");
    let args: Vec<_> = resolved.args.iter().map(arg_parts).collect();
    assert_eq!(args, vec![path_arg("arg0", "{_:.*}")]);
}

#[test]
fn actix_without_path_gives_none() {
    assert!(actix_resolve_path(&None).is_none());
}

#[test]
fn actix_path_without_arguments_is_kept() {
    let resolved = actix_resolve_path(&Some("/plain/path".to_string())).unwrap();
    assert_eq!(resolved.path, "/plain/path");
    assert!(resolved.args.is_empty());
}

#[test]
fn axum_path_is_kept_and_arguments_listed() {
    let resolved = axum_resolve_path(&Some("/foo/{id}/bar/{name}".to_string())).unwrap();
    assert_eq!(resolved.path, "/foo/{id}/bar/{name}");
    let args: Vec<_> = resolved.args.iter().map(arg_parts).collect();
    assert_eq!(args, vec![path_arg("id", "{id}"), path_arg("name", "{name}")]);
    assert!(axum_resolve_path(&None).is_none());
}

#[test]
fn rocket_path_query_and_body_are_resolved() {
    let resolved = rocket_resolve_path(Some(RocketPath {
        path: "/hello/<id>/<rest..>?<query>&<_>".to_string(),
        operation: Some("get".to_string()),
        body: Some("<data>".to_string()),
    }))
    .unwrap();
    assert_eq!(resolved.path.path, "/hello/{id}/{rest}");
    assert_eq!(resolved.path.operation, Some("get".to_string()));
    assert_eq!(resolved.path.body, Some("data".to_string()));
    let args: Vec<_> = resolved.args.iter().map(arg_parts).collect();
    assert_eq!(
        args,
        vec![
            query_arg("arg0", "<_>"),
            path_arg("id", "<id>"),
            query_arg("query", "<query>"),
            path_arg("rest", "<rest..>"),
        ]
    );
}

#[test]
fn rocket_unnamed_arguments_are_numbered_across_path_and_query() {
    let resolved = rocket_resolve_path(Some(RocketPath {
        path: "/a/<_>/<_>?<_>".to_string(),
        operation: None,
        body: None,
    }))
    .unwrap();
    assert_eq!(resolved.path.path, "/a/{arg0}/{arg1}");
    assert_eq!(resolved.path.body, None);
    let args: Vec<_> = resolved.args.iter().map(arg_parts).collect();
    assert_eq!(
        args,
        vec![path_arg("arg0", "<_>"), path_arg("arg1", "<_>"), query_arg("arg2", "<_>")]
    );
}

#[test]
fn rocket_path_without_arguments_and_none() {
    let resolved = rocket_resolve_path(Some(RocketPath {
        path: "/static".to_string(),
        operation: None,
        body: None,
    }))
    .unwrap();
    assert_eq!(resolved.path.path, "/static");
    assert!(resolved.args.is_empty());
    assert!(rocket_resolve_path(None).is_none());
}

#[test]
fn decimal_digits() {
    let s: String = decimal_chars(0).into_iter().collect();
    assert_eq!(s, "0");
    let s: String = decimal_chars(1207).into_iter().collect();
    assert_eq!(s, "1207");
}

#[test]
fn sort_args_orders_by_name() {
    let args = vec![
        MacroArg::Path(ArgValue { name: "b".to_string(), original_name: "<b>".to_string() }),
        MacroArg::Query(ArgValue { name: "a".to_string(), original_name: "<a>".to_string() }),
        MacroArg::Path(ArgValue { name: "c".to_string(), original_name: "<c>".to_string() }),
    ];
    let sorted: Vec<_> = sort_args_by_name(args).iter().map(arg_parts).collect();
    assert_eq!(sorted, vec![query_arg("a", "<a>"), path_arg("b", "<b>"), path_arg("c", "<c>")]);
}

#[test]
fn macro_arg_by_name_compares_names() {
    let a = MacroArg::Path(ArgValue { name: "alpha".to_string(), original_name: "x".to_string() });
    let b = MacroArg::Query(ArgValue { name: "beta".to_string(), original_name: "y".to_string() });
    assert_eq!(MacroArg::by_name(&a, &b), std::cmp::Ordering::Less);
    assert_eq!(MacroArg::by_name(&b, &a), std::cmp::Ordering::Greater);
    assert_eq!(MacroArg::by_name(&a, &a), std::cmp::Ordering::Equal);
    assert_eq!(b.get_value().name, "beta");
}

#[test]
fn anonymous_rocket_argument() {
    let anon = MacroArg::Query(ArgValue { name: "arg0".to_string(), original_name: "<_>".to_string() });
    let named = MacroArg::Path(ArgValue { name: "id".to_string(), original_name: "<id>".to_string() });
    assert!(is_anonymous_arg(&anon));
    assert!(!is_anonymous_arg(&named));
}

#[test]
fn path_operation_from_name() {
    assert_eq!(PathOperation::from_name("get"), Ok(PathOperation::Get));
    assert_eq!(PathOperation::from_name("connect"), Ok(PathOperation::Connect));
    assert_eq!("patch".parse::<PathOperation>(), Ok(PathOperation::Patch));
    assert_eq!(
        PathOperation::from_name("GET"),
        Err("invalid PathOperation expected one of: get, post, put, delete, options, head, patch, trace, connect".to_string())
    );
}

#[test]
fn default_resolvers_read_nothing() {
    assert!(PathOperations::resolve_path(&Some("/foo/{id}".to_string())).is_none());
    assert!(PathOperations2::resolve_path(&Some("/foo/{id}".to_string())).is_none());
}

#[test]
fn route_attribute_names() {
    assert!(is_valid_actix_route_attribute(Some("connect")));
    assert!(is_valid_actix_route_attribute(Some("route")));
    assert!(!is_valid_actix_route_attribute(Some("other")));
    assert!(!is_valid_actix_route_attribute(None));
    assert!(is_valid_route_type(Some("get")));
    assert!(!is_valid_route_type(Some("connect")));
    assert!(!is_valid_route_type(None));
}

#[test]
fn route_methods_are_read_after_method_equals() {
    let tokens = vec![
        Token::Literal("\"/path\"".to_string()),
        Token::Punct(','),
        Token::Ident("method".to_string()),
        Token::Punct('='),
        Token::Literal("\"GET\"".to_string()),
        Token::Punct(','),
        Token::Ident("method".to_string()),
        Token::Punct('='),
        Token::Literal("\"CUSTOM\"".to_string()),
        Token::Punct(','),
        Token::Ident("method".to_string()),
        Token::Punct('='),
        Token::Literal("\"POST\"".to_string()),
    ];
    assert_eq!(route_methods(&tokens), vec!["GET".to_string(), "POST".to_string()]);
}

#[test]
fn path_operation_parses_through_from_str() {
    assert_eq!(PathOperation::from_str("patch"), Ok(PathOperation::Patch));
    assert!(PathOperation::from_str("GET").is_err());
}
