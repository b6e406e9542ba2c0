use utoipa_gen::type_tree::{component_schema_target, compose_child_references, SchemaShape};
use utoipa_gen::attrs::GenericParam;
use utoipa_gen::config::Config;
use utoipa_gen::rust_type::{TypeArgument, PathArguments, TypeSegment, RustType, TypePath};
use utoipa_gen::type_tree::{
    check_type, from_type, get_generic_type, is_primitive, GenericType, TypeTree, TypeTreeValueIter,
    ValueType,
};

fn plain(name: &str) -> RustType {
    RustType::Path(TypePath {
        segments: vec![TypeSegment { ident: name.to_string(), arguments: PathArguments::Empty }],
    })
}

fn generic(name: &str, args: Vec<RustType>) -> RustType {
    RustType::Path(TypePath {
        segments: vec![TypeSegment {
            ident: name.to_string(),
            arguments: PathArguments::AngleBracketed(
                args.into_iter().map(TypeArgument::Type).collect(),
            ),
        }],
    })
}

fn last_ident(tree: &TypeTree) -> String {
    tree.path.as_ref().unwrap().segments.last().unwrap().ident.clone()
}

fn message(result: Result<TypeTree, utoipa_gen::diagnostics::Diagnostics>) -> String {
    match result {
        Ok(_) => panic!("expected an error"),
        Err(d) => d.message(),
    }
}

#[test]
fn primitive_path_is_a_primitive_leaf() {
    let tree = from_type(&plain("i32")).ok().unwrap();
    assert_eq!(tree.value_type, ValueType::Primitive);
    assert_eq!(tree.generic_type, None);
    assert!(tree.children.is_none());
    assert_eq!(last_ident(&tree), "i32");
}

#[test]
fn vec_of_primitive_has_one_child() {
    let tree = from_type(&generic("Vec", vec![plain("i32")])).ok().unwrap();
    assert_eq!(tree.value_type, ValueType::Object);
    assert_eq!(tree.generic_type, Some(GenericType::Vec));
    let children = tree.children.as_ref().unwrap();
    assert_eq!(children.len(), 1);
    assert_eq!(children[0].value_type, ValueType::Primitive);
    assert!(tree.is("i32"));
    assert!(tree.is("Vec"));
    assert!(!tree.is("String"));
}

#[test]
fn map_and_option_are_recognized() {
    let map = from_type(&generic("HashMap", vec![plain("String"), plain("Value")])).ok().unwrap();
    assert!(map.is_map());
    assert!(!map.is_option());
    assert!(map.is_value());
    assert!(!map.is_object());
    let children = map.children.as_ref().unwrap();
    assert_eq!(children[1].value_type, ValueType::Value);

    let option = from_type(&generic("Option", vec![plain("Object")])).ok().unwrap();
    assert!(option.is_option());
    assert!(option.is_object());
    assert_eq!(option.generic_type, Some(GenericType::Option));
}

#[test]
fn tuple_and_unit_trees() {
    let tuple = from_type(&RustType::Tuple(vec![plain("i32"), plain("String")])).ok().unwrap();
    assert_eq!(tuple.value_type, ValueType::Tuple);
    assert!(tuple.path.is_none());
    assert_eq!(tuple.children.as_ref().unwrap().len(), 2);

    let unit = from_type(&RustType::Tuple(vec![])).ok().unwrap();
    assert_eq!(unit.value_type, ValueType::Tuple);
    assert!(unit.children.is_none());
}

#[test]
fn slices_and_references() {
    let slice = from_type(&RustType::Slice(Box::new(plain("u8")))).ok().unwrap();
    assert_eq!(slice.generic_type, Some(GenericType::Vec));
    assert_eq!(last_ident(&slice), "Array");
    assert_eq!(slice.children.as_ref().unwrap().len(), 1);

    let reference = from_type(&RustType::Reference(Box::new(plain("str")))).ok().unwrap();
    assert_eq!(reference.value_type, ValueType::Primitive);
    assert_eq!(last_ident(&reference), "str");
}

#[test]
fn lifetime_only_arguments_give_no_children() {
    let ty = RustType::Path(TypePath {
        segments: vec![TypeSegment {
            ident: "Cow".to_string(),
            arguments: PathArguments::AngleBracketed(vec![TypeArgument::Lifetime("a".to_string())]),
        }],
    });
    let tree = from_type(&ty).ok().unwrap();
    assert!(tree.children.is_none());
    assert_eq!(tree.generic_type, Some(GenericType::Cow));
}

#[test]
fn unread_types_are_errors() {
    assert_eq!(
        message(from_type(&RustType::Other)),
        "unexpected type in component part get type path, expected one of: Path, Tuple, Reference, Group, Array, Slice, TraitObject"
    );
    assert!(check_type(&RustType::Other).is_some());
    assert!(check_type(&plain("i32")).is_none());

    let parenthesized = RustType::Path(TypePath {
        segments: vec![TypeSegment {
            ident: "Fn".to_string(),
            arguments: PathArguments::Parenthesized,
        }],
    });
    assert_eq!(
        message(from_type(&parenthesized)),
        "unexpected path argument, expected angle bracketed path argument"
    );

    let other_arg = RustType::Path(TypePath {
        segments: vec![TypeSegment {
            ident: "Foo".to_string(),
            arguments: PathArguments::AngleBracketed(vec![TypeArgument::Other]),
        }],
    });
    assert_eq!(
        message(from_type(&other_arg)),
        "expected generic argument type or generic argument lifetime"
    );
}

#[test]
fn compose_name_joins_generic_arguments() {
    let tree = from_type(&generic(
        "HashMap",
        vec![plain("String"), generic("Vec", vec![plain("i32")])],
    ))
    .ok()
    .unwrap();
    let children = tree.children.as_ref().unwrap();
    assert_eq!(TypeTree::compose_name(children), "String_Vec_i32");
    assert_eq!(TypeTree::compose_name(&vec![]), "");
}

#[test]
fn generic_type_names() {
    let seg = |name: &str| TypeSegment {
        ident: name.to_string(),
        arguments: PathArguments::AngleBracketed(vec![TypeArgument::Type(plain("T"))]),
    };
    assert_eq!(get_generic_type(&seg("BTreeMap")), Some(GenericType::MapLike));
    assert_eq!(get_generic_type(&seg("HashSet")), Some(GenericType::SetLike));
    assert_eq!(get_generic_type(&seg("LinkedList")), Some(GenericType::LinkedList));
    assert_eq!(get_generic_type(&seg("RefCell")), Some(GenericType::RefCell));
    assert_eq!(get_generic_type(&seg("Other")), None);
    let no_args = TypeSegment { ident: "Vec".to_string(), arguments: PathArguments::Empty };
    assert_eq!(get_generic_type(&no_args), None);
    assert!(is_primitive("u128"));
    assert!(!is_primitive("Uuid"));
}

#[test]
fn type_tree_value_iter_yields_once() {
    let mut once = TypeTreeValueIter::once(5);
    assert_eq!(once.next(), Some(5));
    assert_eq!(once.next(), None);
    let mut empty = TypeTreeValueIter::<i32>::empty();
    assert_eq!(empty.next(), None);
}

#[test]
fn path_generics_of_a_generic_type() {
    let ty = RustType::Path(TypePath {
        segments: vec![TypeSegment {
            ident: "Wrapper".to_string(),
            arguments: PathArguments::AngleBracketed(vec![
                TypeArgument::Lifetime("a".to_string()),
                TypeArgument::Type(plain("T")),
                TypeArgument::Type(RustType::Reference(Box::new(plain("U")))),
                TypeArgument::Type(RustType::Tuple(vec![])),
                TypeArgument::Const,
            ]),
        }],
    });
    let tree = from_type(&ty).ok().unwrap();
    let generics = tree.get_path_generics().unwrap().unwrap();
    assert_eq!(generics.len(), 3);
    assert!(matches!(&generics[0], GenericParam::Lifetime(n) if n == "a"));
    assert!(matches!(&generics[1], GenericParam::Type(n) if n == "T"));
    assert!(matches!(&generics[2], GenericParam::Type(n) if n == "U"));
}

#[test]
fn path_generics_of_a_plain_type_are_none() {
    let tree = from_type(&plain("Foo")).ok().unwrap();
    assert!(tree.get_path_generics().unwrap().is_none());
}

#[test]
fn path_generics_of_a_tuple_is_an_error() {
    let tree = from_type(&RustType::Tuple(vec![plain("A"), plain("B")])).ok().unwrap();
    assert_eq!(
        tree.get_path_generics().err().unwrap(),
        "cannot get TypeTree::path, did you call this on `tuple` or `unit` type type tree?"
    );
}

#[test]
fn alias_type_is_found_by_last_segment() {
    let config = Config::new().alias_for("MyType", "i32").alias_for("MyType", "Option<String>");
    let ty = RustType::Path(TypePath {
        segments: vec![
            TypeSegment { ident: "crate".to_string(), arguments: PathArguments::Empty },
            TypeSegment { ident: "MyType".to_string(), arguments: PathArguments::Empty },
        ],
    });
    let tree = from_type(&ty).ok().unwrap();
    assert_eq!(tree.get_alias_type(&config), Some("Option<String>".to_string()));
    let other = from_type(&plain("Other")).ok().unwrap();
    assert_eq!(other.get_alias_type(&config), None);
    let unit = from_type(&RustType::Tuple(vec![])).ok().unwrap();
    assert_eq!(unit.get_alias_type(&config), None);
}

#[test]
fn schema_target_passes_through_wrappers() {

    let ty = generic("Option", vec![generic("Box", vec![plain("Pet")])]);
    let tree = from_type(&ty).ok().unwrap();
    let (target, nullable, shape) = component_schema_target(&tree, None);
    assert_eq!(last_ident(target), "Pet");
    assert_eq!(nullable, Some(true));
    assert_eq!(shape, SchemaShape::NonGeneric);

    let (_, nullable, _) = component_schema_target(&tree, Some(false));
    assert_eq!(nullable, Some(false));

    let vec_tree = from_type(&generic("Box", vec![generic("Vec", vec![plain("i32")])])).ok().unwrap();
    let (target, nullable, shape) = component_schema_target(&vec_tree, None);
    assert_eq!(last_ident(target), "Vec");
    assert_eq!(nullable, None);
    assert_eq!(shape, SchemaShape::Array);

    let map_tree = from_type(&generic("HashMap", vec![plain("String"), plain("i32")])).ok().unwrap();
    assert_eq!(component_schema_target(&map_tree, None).2, SchemaShape::MapObject);
}

#[test]
fn child_references_are_the_object_leaves() {
    let ty = generic(
        "Wrapper",
        vec![
            generic("Vec", vec![plain("Pet")]),
            plain("i32"),
            generic("HashMap", vec![plain("String"), plain("Owner")]),
        ],
    );
    let tree = from_type(&ty).ok().unwrap();
    let refs = compose_child_references(tree.children.as_ref().unwrap());
    let names: Vec<String> = refs.iter().map(|p| p.segments.last().unwrap().ident.clone()).collect();
    assert_eq!(names, vec!["Pet", "Owner"]);
}

#[test]
fn value_iter_size_hint() {
    let mut once = TypeTreeValueIter::once(5u8);
    assert_eq!(once.size_hint(), (1, Some(1)));
    assert_eq!(once.next(), Some(5));
    assert_eq!(once.size_hint(), (0, Some(0)));
    let empty = TypeTreeValueIter::<u8>::empty();
    assert_eq!(empty.size_hint(), (0, None));
}
