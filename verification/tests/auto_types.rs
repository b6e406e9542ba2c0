use utoipa_gen::auto_types::parse_fn_operation_responses;
use utoipa_gen::rust_type::{TypeArgument, PathArguments, TypeSegment, RustType, TypePath};

fn plain(name: &str) -> RustType {
    RustType::Path(TypePath {
        segments: vec![TypeSegment { ident: name.to_string(), arguments: PathArguments::Empty }],
    })
}

fn generic(name: &str, args: Vec<TypeArgument>) -> RustType {
    RustType::Path(TypePath {
        segments: vec![TypeSegment {
            ident: name.to_string(),
            arguments: PathArguments::AngleBracketed(args),
        }],
    })
}

fn names(paths: &[TypePath]) -> Vec<String> {
    paths.iter().map(|p| p.segments.last().unwrap().ident.clone()).collect()
}

#[test]
fn default_return_type_has_no_responses() {
    assert!(parse_fn_operation_responses(&None).is_empty());
}

#[test]
fn plain_return_type_is_its_own_response() {
    let res = parse_fn_operation_responses(&Some(plain("Json")));
    assert_eq!(names(&res), vec!["Json"]);
}

#[test]
fn reference_return_type_has_no_responses() {
    let res = parse_fn_operation_responses(&Some(RustType::Reference(Box::new(plain("Foo")))));
    assert!(res.is_empty());
}

#[test]
fn result_gives_ok_then_error_responses() {
    let ty = generic(
        "Result",
        vec![TypeArgument::Type(plain("Created")), TypeArgument::Type(plain("ApiError"))],
    );
    let res = parse_fn_operation_responses(&Some(ty));
    assert_eq!(names(&res), vec!["Created", "ApiError"]);
}

#[test]
fn nested_results_are_flattened_in_order() {
    let inner = generic(
        "Result",
        vec![TypeArgument::Type(plain("A")), TypeArgument::Type(plain("B"))],
    );
    let ty = generic("Result", vec![TypeArgument::Type(inner), TypeArgument::Type(plain("C"))]);
    let res = parse_fn_operation_responses(&Some(ty));
    assert_eq!(names(&res), vec!["A", "B", "C"]);
}

#[test]
fn result_alias_gives_ok_responses_then_itself() {
    let ty = generic("Result", vec![TypeArgument::Type(plain("Created"))]);
    let res = parse_fn_operation_responses(&Some(ty));
    assert_eq!(names(&res), vec!["Created", "Result"]);
    assert!(matches!(&res[1].segments[0].arguments, PathArguments::AngleBracketed(a) if a.len() == 1));
}

#[test]
fn result_side_that_is_no_path_is_passed_over() {
    let ty = generic(
        "Result",
        vec![
            TypeArgument::Type(RustType::Tuple(vec![])),
            TypeArgument::Type(plain("ApiError")),
        ],
    );
    let res = parse_fn_operation_responses(&Some(ty));
    assert_eq!(names(&res), vec!["ApiError"]);
}

#[test]
fn result_with_lifetime_counts_only_types() {
    let ty = generic(
        "Result",
        vec![
            TypeArgument::Lifetime("a".to_string()),
            TypeArgument::Type(plain("Ok")),
            TypeArgument::Type(plain("Err")),
        ],
    );
    let res = parse_fn_operation_responses(&Some(ty));
    assert_eq!(names(&res), vec!["Ok", "Err"]);
}

#[test]
fn result_without_type_arguments_is_its_own_response() {
    let res = parse_fn_operation_responses(&Some(plain("Result")));
    assert_eq!(names(&res), vec!["Result"]);
}
