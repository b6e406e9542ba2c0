use utoipa_gen::ext::ArgumentIn;
use utoipa_gen::fn_arg::{get_fn_args, FnArgType, HandlerArg, ParameterInProvider, Pat, PatType};
use utoipa_gen::rocket::{rocket_resolve_path, RocketPath};
use utoipa_gen::rocket_args::{get_name, rocket_resolve_arguments, sort_fn_args};
use utoipa_gen::rust_type::{PathArguments, TypeSegment, RustType, TypePath};

fn plain(name: &str) -> RustType {
    RustType::Path(TypePath {
        segments: vec![TypeSegment { ident: name.to_string(), arguments: PathArguments::Empty }],
    })
}

fn typed(name: &str, ty: RustType) -> HandlerArg {
    HandlerArg::Typed(PatType { pat: Pat::Ident(name.to_string()), ty })
}

fn args() -> Vec<HandlerArg> {
    vec![
        typed("q", plain("Filter")),
        typed("name", plain("String")),
        HandlerArg::Typed(PatType { pat: Pat::Wild, ty: plain("State") }),
        typed("id", plain("i32")),
    ]
}

#[test]
fn rocket_arguments_follow_the_route() {
    let route = rocket_resolve_path(Some(RocketPath {
        path: "/items/<name>/<id>?<q>&<_>".to_string(),
        operation: None,
        body: None,
    }))
    .unwrap();
    let resolved = rocket_resolve_arguments(&args(), Some(route)).ok().unwrap();
    let values: Vec<_> = resolved
        .values
        .iter()
        .map(|v| {
            (
                v.name.clone(),
                v.argument_in,
                v.type_tree.as_ref().map(|t| t.path.as_ref().unwrap().segments[0].ident.clone()),
            )
        })
        .collect();
    assert_eq!(
        values,
        vec![
            (Some("id".to_string()), ArgumentIn::Path, Some("i32".to_string())),
            (Some("name".to_string()), ArgumentIn::Path, Some("String".to_string())),
            (Some("arg0".to_string()), ArgumentIn::Query, None),
        ]
    );
    assert_eq!(resolved.into_params.len(), 1);
    assert_eq!(resolved.into_params[0].parameter_in_provider, ParameterInProvider::Query);
    assert_eq!(resolved.into_params[0].type_path.as_ref().unwrap().segments[0].ident, "Filter");
}

#[test]
fn rocket_arguments_without_route_are_empty() {
    let resolved = rocket_resolve_arguments(&args(), None).ok().unwrap();
    assert!(resolved.values.is_empty());
    assert!(resolved.into_params.is_empty());
    assert!(rocket_resolve_arguments(&vec![HandlerArg::Receiver], None).is_err());
}

#[test]
fn fn_args_are_sorted_by_names() {
    let mut input = args();
    input.push(HandlerArg::Typed(PatType {
        pat: Pat::Tuple(vec![Pat::Ident("a".to_string()), Pat::Ident("b".to_string())]),
        ty: RustType::Tuple(vec![plain("i32"), plain("i32")]),
    }));
    let sorted = sort_fn_args(get_fn_args(&input).ok().unwrap());
    let names: Vec<_> = sorted
        .iter()
        .map(|a| match &a.arg_type {
            FnArgType::Single(s) => s.clone(),
            FnArgType::Destructed(v) => v.join("+"),
        })
        .collect();
    assert_eq!(names, vec!["id", "name", "q", "a+b"]);
    assert_eq!(get_name(&sorted[3].arg_type), "a");
}
