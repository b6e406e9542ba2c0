use utoipa_gen::ext::{ArgValue, ArgumentIn, MacroArg};
use utoipa_gen::fn_arg::{
    actix_resolve_arguments, axum_resolve_arguments, get_fn_args, get_pat_fn_arg_type,
    FnArgType, HandlerArg, ParameterInProvider, Pat, PatType, ValueArgument,
};
use utoipa_gen::rust_type::{TypeArgument, PathArguments, TypeSegment, RustType, TypePath};
use utoipa_gen::type_tree::TypeTree;

fn plain(name: &str) -> RustType {
    RustType::Path(TypePath {
        segments: vec![TypeSegment { ident: name.to_string(), arguments: PathArguments::Empty }],
    })
}

fn generic(name: &str, args: Vec<RustType>) -> RustType {
    RustType::Path(TypePath {
        segments: vec![TypeSegment {
            ident: name.to_string(),
            arguments: PathArguments::AngleBracketed(
                args.into_iter().map(TypeArgument::Type).collect(),
            ),
        }],
    })
}

fn ident(s: &str) -> Pat {
    Pat::Ident(s.to_string())
}

fn typed(pat: Pat, ty: RustType) -> HandlerArg {
    HandlerArg::Typed(PatType { pat, ty })
}

fn path_arg(name: &str) -> MacroArg {
    MacroArg::Path(ArgValue { name: name.to_string(), original_name: format!("{{{name}}}") })
}

fn tree_name(t: &TypeTree) -> String {
    t.path.as_ref().unwrap().segments.last().unwrap().ident.clone()
}

fn value_parts(v: &ValueArgument) -> (Option<String>, ArgumentIn, String) {
    (v.name.clone(), v.argument_in, tree_name(v.type_tree.as_ref().unwrap()))
}

fn names(a: &FnArgType) -> Vec<String> {
    match a {
        FnArgType::Single(s) => vec![s.clone()],
        FnArgType::Destructed(v) => v.clone(),
    }
}

#[test]
fn pattern_names() {
    let single = get_pat_fn_arg_type(&ident("id")).ok().unwrap();
    assert!(matches!(single, FnArgType::Single(ref s) if s == "id"));

    let tuple_struct = Pat::TupleStruct(vec![Pat::Tuple(vec![ident("id"), ident("name")])]);
    let destructed = get_pat_fn_arg_type(&tuple_struct).ok().unwrap();
    assert!(matches!(destructed, FnArgType::Destructed(_)));
    assert_eq!(names(&destructed), vec!["id".to_string(), "name".to_string()]);

    let structure = Pat::Struct(vec![ident("a"), Pat::Tuple(vec![ident("x")]), Pat::Other, ident("b")]);
    assert_eq!(names(&get_pat_fn_arg_type(&structure).ok().unwrap()), vec!["a".to_string(), "b".to_string()]);
}

#[test]
fn pattern_errors() {
    let bad_tuple = Pat::Tuple(vec![ident("a"), Pat::Wild]);
    let error = get_pat_fn_arg_type(&bad_tuple).err().unwrap();
    assert_eq!(error.message(), "expected syn::Ident in get_pat_fn_arg_type Pat::Tuple");
    let error = get_pat_fn_arg_type(&Pat::Other).err().unwrap();
    assert_eq!(
        error.message(),
        "unexpected syn::Pat, expected syn::Pat::Ident,in get_fn_args, cannot get fn argument name"
    );
}

#[test]
fn fn_args_skip_wild_and_reject_self() {
    let args = vec![typed(Pat::Wild, plain("State")), typed(ident("id"), plain("i32"))];
    let read = get_fn_args(&args).ok().unwrap();
    assert_eq!(read.len(), 1);
    assert_eq!(tree_name(&read[0].ty), "i32");
    assert_eq!(names(&read[0].arg_type), vec!["id".to_string()]);

    let error = get_fn_args(&vec![HandlerArg::Receiver]).err().unwrap();
    assert_eq!(error.message(), "unexpected fn argument type, expected FnArg::Typed");

    let error = get_fn_args(&vec![typed(ident("x"), RustType::Other)]).err().unwrap();
    assert_eq!(
        error.message(),
        "unexpected type in component part get type path, expected one of: Path, Tuple, Reference, Group, Array, Slice, TraitObject"
    );
}

#[test]
fn actix_arguments_are_split() {
    let args = vec![
        typed(ident("path"), generic("Path", vec![RustType::Tuple(vec![plain("i32"), plain("String")])])),
        typed(ident("query"), generic("Query", vec![plain("Filter")])),
        typed(ident("body"), generic("Json", vec![plain("Pet")])),
        typed(ident("other"), plain("HttpRequest")),
    ];
    let resolved =
        actix_resolve_arguments(&args, Some(vec![path_arg("id"), path_arg("name")])).ok().unwrap();
    let values: Vec<_> = resolved.values.as_ref().unwrap().iter().map(value_parts).collect();
    assert_eq!(
        values,
        vec![
            (Some("id".to_string()), ArgumentIn::Path, "i32".to_string()),
            (Some("name".to_string()), ArgumentIn::Path, "String".to_string()),
        ]
    );
    let into_params = resolved.into_params.as_ref().unwrap();
    assert_eq!(into_params.len(), 1);
    assert_eq!(into_params[0].parameter_in_provider, ParameterInProvider::Query);
    assert_eq!(into_params[0].type_path.as_ref().unwrap().segments[0].ident, "Filter");
    assert_eq!(tree_name(resolved.body.as_ref().unwrap()), "Json");

    let without_path = actix_resolve_arguments(&args, None).ok().unwrap();
    assert!(without_path.values.is_none());
    assert_eq!(without_path.into_params.unwrap().len(), 1);
}

#[test]
fn axum_arguments_are_named_by_the_path() {
    let args = vec![
        typed(
            Pat::TupleStruct(vec![Pat::Tuple(vec![ident("id"), ident("name")])]),
            generic("Path", vec![RustType::Tuple(vec![plain("i32"), plain("String")])]),
        ),
        typed(ident("params"), generic("Option", vec![generic("Query", vec![plain("Filter")])])),
        typed(ident("form"), generic("Form", vec![plain("Pet")])),
    ];
    let resolved = axum_resolve_arguments(
        &args,
        Some(vec![
            path_arg("first"),
            MacroArg::Query(ArgValue { name: "q".to_string(), original_name: "q".to_string() }),
        ]),
    )
    .ok()
    .unwrap();
    let values: Vec<_> = resolved.values.as_ref().unwrap().iter().map(value_parts).collect();
    assert_eq!(
        values,
        vec![
            (Some("first".to_string()), ArgumentIn::Path, "i32".to_string()),
            (None, ArgumentIn::Path, "String".to_string()),
        ]
    );
    let into_params = resolved.into_params.as_ref().unwrap();
    assert_eq!(into_params.len(), 1);
    assert_eq!(into_params[0].parameter_in_provider, ParameterInProvider::Query);
    assert_eq!(into_params[0].type_path.as_ref().unwrap().segments[0].ident, "Query");
    assert_eq!(tree_name(resolved.body.as_ref().unwrap()), "Form");

    let without_path = axum_resolve_arguments(&args, None).ok().unwrap();
    assert!(without_path.values.unwrap().is_empty());
}

#[test]
fn axum_single_name_path() {
    let args = vec![typed(Pat::TupleStruct(vec![ident("id")]), generic("Path", vec![plain("u64")]))];
    let resolved = axum_resolve_arguments(&args, Some(vec![path_arg("id")])).ok().unwrap();
    let values: Vec<_> = resolved.values.as_ref().unwrap().iter().map(value_parts).collect();
    assert_eq!(values, vec![(Some("id".to_string()), ArgumentIn::Path, "u64".to_string())]);
    assert!(resolved.body.is_none());
    assert!(resolved.into_params.unwrap().is_empty());
}
