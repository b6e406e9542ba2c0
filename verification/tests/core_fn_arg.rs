use utoipa_gen::component_type::TypeFeatures;
use utoipa_gen::core_fn_arg::{get_fn_args, is_into_params, with_parameter_in};
use utoipa_gen::fn_arg::{HandlerArg, ParameterInProvider, Pat, PatType};
use utoipa_gen::rust_type::{TypeArgument, PathArguments, TypeSegment, RustType, TypePath};

fn plain(name: &str) -> RustType {
    RustType::Path(TypePath {
        segments: vec![TypeSegment { ident: name.to_string(), arguments: PathArguments::Empty }],
    })
}

fn generic(name: &str, args: Vec<RustType>) -> RustType {
    RustType::Path(TypePath {
        segments: vec![TypeSegment {
            ident: name.to_string(),
            arguments: PathArguments::AngleBracketed(args.into_iter().map(TypeArgument::Type).collect()),
        }],
    })
}

fn features() -> TypeFeatures {
    TypeFeatures {
        chrono: false,
        chrono_with_format: false,
        decimal: false,
        rocket_extras: false,
        uuid: false,
        time: false,
    }
}

fn typed(pat: Pat, ty: RustType) -> HandlerArg {
    HandlerArg::Typed(PatType { pat, ty })
}

#[test]
fn core_fn_args_read_names_and_trees() {
    let args = vec![
        typed(Pat::Ident("id".to_string()), plain("i32")),
        typed(
            Pat::TupleStruct(vec![Pat::Ident("query".to_string())]),
            generic("Query", vec![plain("Filter")]),
        ),
    ];
    let read = get_fn_args(&args, features());
    assert_eq!(read.len(), 2);
    assert_eq!(read[0].name, "id");
    assert_eq!(read[1].name, "query");
    assert!(read[1].ty.is("Filter"));
}

#[test]
fn core_into_params_extractors() {
    let args = vec![
        typed(Pat::Ident("q".to_string()), generic("Query", vec![plain("Filter")])),
        typed(Pat::Ident("p".to_string()), generic("Path", vec![plain("i32")])),
        typed(Pat::Ident("j".to_string()), generic("Json", vec![plain("Body")])),
    ];
    let read = get_fn_args(&args, features());
    assert!(is_into_params(&read[0]));
    assert!(!is_into_params(&read[1]));
    assert!(!is_into_params(&read[2]));
}

#[test]
fn core_parameter_in_of_extractors() {
    let args = vec![typed(Pat::Ident("q".to_string()), generic("Query", vec![plain("Filter")]))];
    let mut read = get_fn_args(&args, features());
    let (path, provider) = with_parameter_in(read.remove(0)).unwrap();
    assert_eq!(provider, ParameterInProvider::Query);
    assert_eq!(path.unwrap().segments[0].ident, "Filter");
}
