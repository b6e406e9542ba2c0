use utoipa_gen::component_type::TypeFeatures;
use utoipa_gen::core_type_tree::{GenericType, TypeTree, ValueType};
use utoipa_gen::rust_type::{TypeArgument, PathArguments, TypeSegment, RustType, TypePath};

fn plain(name: &str) -> RustType {
    RustType::Path(TypePath {
        segments: vec![TypeSegment { ident: name.to_string(), arguments: PathArguments::Empty }],
    })
}

fn generic(name: &str, args: Vec<TypeArgument>) -> RustType {
    RustType::Path(TypePath {
        segments: vec![TypeSegment {
            ident: name.to_string(),
            arguments: PathArguments::AngleBracketed(args),
        }],
    })
}

fn no_features() -> TypeFeatures {
    TypeFeatures {
        chrono: false,
        chrono_with_format: false,
        decimal: false,
        rocket_extras: false,
        uuid: false,
        time: false,
    }
}

fn last(t: &TypeTree) -> String {
    t.path.as_ref().unwrap().segments.last().unwrap().ident.clone()
}

#[test]
fn core_tree_of_a_primitive() {
    let t = TypeTree::from_type(&plain("i32"), no_features());
    assert_eq!(t.value_type, ValueType::Primitive);
    assert_eq!(t.generic_type, None);
    assert!(t.children.is_none());
}

#[test]
fn core_tree_of_a_generic_type() {
    let t = TypeTree::from_type(
        &generic("Path", vec![TypeArgument::Type(generic("Vec", vec![TypeArgument::Type(plain("u64"))]))]),
        no_features(),
    );
    assert_eq!(t.value_type, ValueType::Object);
    let children = t.children.as_ref().unwrap();
    assert_eq!(children.len(), 1);
    assert_eq!(children[0].generic_type, Some(GenericType::Vec));
    assert!(t.is("u64"));
    assert!(!t.is("String"));
}

#[test]
fn core_tree_of_a_tuple_holds_its_paths() {
    let ty = RustType::Reference(Box::new(RustType::Tuple(vec![plain("String"), plain("Foo")])));
    let t = TypeTree::from_type(&ty, no_features());
    assert_eq!(t.value_type, ValueType::Tuple);
    assert!(t.path.is_none());
    let children = t.children.as_ref().unwrap();
    assert_eq!(last(&children[0]), "String");
    assert_eq!(last(&children[1]), "Foo");
}

#[test]
fn core_tree_leaves_out_lifetimes() {
    let t = TypeTree::from_type(
        &generic("Cow", vec![TypeArgument::Lifetime("a".to_string()), TypeArgument::Type(plain("str"))]),
        no_features(),
    );
    assert_eq!(t.generic_type, Some(GenericType::Cow));
    assert_eq!(t.children.as_ref().unwrap().len(), 1);
    let only_lifetime = TypeTree::from_type(&generic("Foo", vec![TypeArgument::Lifetime("a".to_string())]), no_features());
    assert!(only_lifetime.children.is_none());
}

#[test]
fn core_tree_names_wrappers_without_arguments() {
    let t = TypeTree::from_type(&plain("HashMap"), no_features());
    assert_eq!(t.generic_type, Some(GenericType::MapLike));
}

#[test]
fn core_tree_any_and_path_update() {
    let mut t = TypeTree::from_type(&generic("Option", vec![TypeArgument::Type(plain("Any"))]), no_features());
    assert!(t.is_any());
    t.update_path("Renamed");
    assert_eq!(last(&t), "Renamed");
    assert_eq!(t.path.as_ref().unwrap().segments.len(), 1);
    assert_eq!(t.generic_type, Some(GenericType::Option));
}

#[test]
fn core_tree_primitives_follow_features() {
    let mut f = no_features();
    assert_eq!(TypeTree::from_type(&plain("Uuid"), f).value_type, ValueType::Object);
    f.uuid = true;
    assert_eq!(TypeTree::from_type(&plain("Uuid"), f).value_type, ValueType::Primitive);
}
