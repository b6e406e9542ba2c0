use utoipa_gen::body::{find_option_type_tree, get_actual_body, get_actual_body_type};
use utoipa_gen::rust_type::{TypeArgument, PathArguments, TypeSegment, RustType, TypePath};
use utoipa_gen::type_tree::{from_type, GenericType, TypeTree, ValueType};

fn plain(name: &str) -> RustType {
    RustType::Path(TypePath {
        segments: vec![TypeSegment { ident: name.to_string(), arguments: PathArguments::Empty }],
    })
}

fn generic(name: &str, args: Vec<RustType>) -> RustType {
    RustType::Path(TypePath {
        segments: vec![TypeSegment {
            ident: name.to_string(),
            arguments: PathArguments::AngleBracketed(args.into_iter().map(TypeArgument::Type).collect()),
        }],
    })
}

fn tree(ty: RustType) -> TypeTree {
    from_type(&ty).ok().unwrap()
}

fn name(t: &TypeTree) -> String {
    t.path.as_ref().unwrap().segments.last().unwrap().ident.clone()
}

#[test]
fn json_and_form_carry_their_argument() {
    let json = tree(generic("Json", vec![plain("Pet")]));
    assert_eq!(name(get_actual_body_type(&json).unwrap()), "Pet");
    let form = tree(generic("Form", vec![plain("Login")]));
    assert_eq!(name(get_actual_body_type(&form).unwrap()), "Login");
}

#[test]
fn option_and_other_wrappers_are_looked_through() {
    let optional = tree(generic("Option", vec![generic("Json", vec![plain("Pet")])]));
    assert_eq!(name(get_actual_body_type(&optional).unwrap()), "Pet");

    let qualified = tree(RustType::Path(TypePath {
        segments: vec![
            TypeSegment { ident: "web".to_string(), arguments: PathArguments::Empty },
            TypeSegment {
                ident: "Json".to_string(),
                arguments: PathArguments::AngleBracketed(vec![TypeArgument::Type(plain("Pet"))]),
            },
        ],
    }));
    assert_eq!(name(get_actual_body_type(&qualified).unwrap()), "Pet");

    let bytes = tree(plain("Bytes"));
    assert_eq!(name(get_actual_body_type(&bytes).unwrap()), "Bytes");

    let none = tree(plain("HttpRequest"));
    assert!(get_actual_body_type(&none).is_none());
}

#[test]
fn find_option_searches_depth_first() {
    let t = tree(generic("Json", vec![generic("Vec", vec![generic("Option", vec![plain("i32")])])]));
    let found = find_option_type_tree(&t).unwrap();
    assert_eq!(found.generic_type, Some(GenericType::Option));
    assert!(find_option_type_tree(&tree(plain("i32"))).is_none());
}

#[test]
fn actual_body_wraps_an_optional_body() {
    let t = tree(generic("Json", vec![generic("Option", vec![plain("Pet")])]));
    let body = get_actual_body(&t);
    assert_eq!(body.generic_type, Some(GenericType::Option));
    assert_eq!(body.value_type, ValueType::Object);
    assert_eq!(name(&body), "Option");
    let children = body.children.as_ref().unwrap();
    assert_eq!(children.len(), 1);
    assert_eq!(name(&children[0]), "Option");

    let plain_body = get_actual_body(&tree(generic("Json", vec![plain("Pet")])));
    assert_eq!(name(&plain_body), "Pet");
    assert!(plain_body.children.is_none());
}
