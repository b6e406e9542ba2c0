use utoipa_gen::argument::{resolve_path_arguments, Argument};
use utoipa_gen::ext::ArgumentIn;
use utoipa_gen::fn_arg::{HandlerArg, Pat, PatType};
use utoipa_gen::rust_type::{TypeArgument, PathArguments, TypeSegment, RustType, TypePath};

fn plain(name: &str) -> RustType {
    RustType::Path(TypePath {
        segments: vec![TypeSegment { ident: name.to_string(), arguments: PathArguments::Empty }],
    })
}

fn extractor(segments: Vec<(&str, Vec<RustType>)>) -> RustType {
    RustType::Path(TypePath {
        segments: segments
            .into_iter()
            .map(|(name, args)| TypeSegment {
                ident: name.to_string(),
                arguments: if args.is_empty() {
                    PathArguments::Empty
                } else {
                    PathArguments::AngleBracketed(args.into_iter().map(TypeArgument::Type).collect())
                },
            })
            .collect(),
    })
}

fn typed(pat: Pat, ty: RustType) -> HandlerArg {
    HandlerArg::Typed(PatType { pat, ty })
}

fn pairs(args: &[Argument]) -> Vec<(String, String)> {
    args.iter().map(|a| (a.name.clone(), a.ident.clone())).collect()
}

#[test]
fn no_path_extractor_gives_none() {
    let args = vec![typed(Pat::Ident("body".to_string()), plain("Json"))];
    assert!(resolve_path_arguments(&args).is_none());
}

#[test]
fn single_path_argument() {
    let args = vec![
        typed(Pat::Ident("query".to_string()), plain("Query")),
        typed(Pat::Ident("id".to_string()), extractor(vec![("Path", vec![plain("i32")])])),
    ];
    let res = resolve_path_arguments(&args).unwrap();
    assert_eq!(pairs(&res), vec![("id".to_string(), "i32".to_string())]);
    assert!(matches!(res[0].argument_in, ArgumentIn::Path));
}

#[test]
fn tuple_path_arguments_pair_names_with_types() {
    let args = vec![typed(
        Pat::TupleStruct(vec![Pat::Ident("id".to_string()), Pat::Ident("name".to_string())]),
        extractor(vec![
            ("web", vec![]),
            ("Path", vec![RustType::Tuple(vec![plain("i32"), plain("String")])]),
        ]),
    )];
    let res = resolve_path_arguments(&args).unwrap();
    assert_eq!(
        pairs(&res),
        vec![("id".to_string(), "i32".to_string()), ("name".to_string(), "String".to_string())]
    );
}

#[test]
fn types_that_are_no_single_identifier_are_left_out() {
    let long = RustType::Path(TypePath {
        segments: vec![
            TypeSegment { ident: "std".to_string(), arguments: PathArguments::Empty },
            TypeSegment { ident: "String".to_string(), arguments: PathArguments::Empty },
        ],
    });
    let args = vec![typed(
        Pat::TupleStruct(vec![Pat::Ident("a".to_string()), Pat::Ident("b".to_string())]),
        extractor(vec![("Path", vec![RustType::Tuple(vec![long, plain("u64")])])]),
    )];
    let res = resolve_path_arguments(&args).unwrap();
    assert_eq!(pairs(&res), vec![("a".to_string(), "u64".to_string())]);
}
