use utoipa_gen::attrs::GenericParam;
use utoipa_gen::component_schema::{is_unsigned_integer, non_generic_schema_plan, vec_schema_plan, SchemaPlan};
use utoipa_gen::component_type::{DataType, TypeFeatures, Variant};
use utoipa_gen::features::{
    Deprecated, Feature, Inline, MaxItems, Minimum, Nullable, NumberValue, XmlAttr,
};
use utoipa_gen::xml::Xml;
use utoipa_gen::rust_type::{TypeArgument, PathArguments, TypeSegment, RustType, TypePath};
use utoipa_gen::type_tree::{from_type, TypeTree};

fn plain(name: &str) -> RustType {
    RustType::Path(TypePath {
        segments: vec![TypeSegment { ident: name.to_string(), arguments: PathArguments::Empty }],
    })
}

fn generic(name: &str, args: Vec<RustType>) -> RustType {
    RustType::Path(TypePath {
        segments: vec![TypeSegment {
            ident: name.to_string(),
            arguments: PathArguments::AngleBracketed(
                args.into_iter().map(TypeArgument::Type).collect(),
            ),
        }],
    })
}

fn tree(ty: RustType) -> TypeTree {
    from_type(&ty).ok().unwrap()
}

fn no_features() -> TypeFeatures {
    TypeFeatures {
        chrono: false,
        chrono_with_format: false,
        decimal: false,
        rocket_extras: false,
        uuid: false,
        time: false,
    }
}

fn idents(path: &TypePath) -> Vec<String> {
    path.segments.iter().map(|s| s.ident.clone()).collect()
}

#[test]
fn unsigned_integer_names() {
    for name in ["u8", "u16", "u32", "u64", "u128", "usize"] {
        assert!(is_unsigned_integer(name));
    }
    for name in ["i8", "i64", "f32", "String", "U8"] {
        assert!(!is_unsigned_integer(name));
    }
}

#[test]
fn u64_is_an_int64_integer_with_minimum_zero() {
    match non_generic_schema_plan(&tree(plain("u64")), vec![], no_features(), &vec![]) {
        SchemaPlan::Primitive { data_type, nullable, format, deprecated, features, minimum_zero } => {
            assert_eq!(data_type, DataType::Integer);
            assert!(!nullable);
            assert_eq!(format, Some(Variant::Int64));
            assert!(deprecated.is_none());
            assert!(features.is_empty());
            assert!(minimum_zero);
        }
        _ => panic!("expected a primitive"),
    }
}

#[test]
fn nullable_primitive_and_explicit_minimum() {
    let features = vec![
        Feature::Minimum(Minimum(NumberValue { minus: false, lit: "5".to_string() })),
        Feature::Nullable(Nullable(true)),
        Feature::Deprecated(Deprecated(true)),
    ];
    match non_generic_schema_plan(&tree(plain("u32")), features, no_features(), &vec![]) {
        SchemaPlan::Primitive { data_type, nullable, format, deprecated, features, minimum_zero } => {
            assert_eq!(data_type, DataType::Integer);
            assert!(nullable);
            assert_eq!(format, Some(Variant::Int32));
            assert!(matches!(deprecated, Some(Feature::Deprecated(Deprecated(true)))));
            assert_eq!(features.len(), 1);
            assert!(matches!(&features[0], Feature::Minimum(_)));
            assert!(!minimum_zero);
        }
        _ => panic!("expected a primitive"),
    }
}

#[test]
fn signed_and_string_primitives_get_no_minimum() {
    match non_generic_schema_plan(&tree(plain("i32")), vec![], no_features(), &vec![]) {
        SchemaPlan::Primitive { format, minimum_zero, .. } => {
            assert_eq!(format, Some(Variant::Int32));
            assert!(!minimum_zero);
        }
        _ => panic!("expected a primitive"),
    }
    match non_generic_schema_plan(&tree(plain("String")), vec![], no_features(), &vec![]) {
        SchemaPlan::Primitive { data_type, format, minimum_zero, .. } => {
            assert_eq!(data_type, DataType::String);
            assert_eq!(format, None);
            assert!(!minimum_zero);
        }
        _ => panic!("expected a primitive"),
    }
}

#[test]
fn value_is_any_value() {
    let plan = non_generic_schema_plan(&tree(plain("Value")), vec![], no_features(), &vec![]);
    assert!(matches!(plan, SchemaPlan::AnyValue { deprecated: None }));
}

#[test]
fn object_is_a_free_form_object() {
    let plan = non_generic_schema_plan(
        &tree(plain("Object")),
        vec![Feature::Nullable(Nullable(true))],
        no_features(),
        &vec![],
    );
    assert!(matches!(plan, SchemaPlan::Object { nullable: true, deprecated: None }));
}

#[test]
fn named_type_is_a_reference_with_composed_name() {
    let plan = non_generic_schema_plan(
        &tree(generic("Pet", vec![plain("String"), generic("Vec", vec![plain("Owner")])])),
        vec![],
        no_features(),
        &vec![],
    );
    match plan {
        SchemaPlan::Named { inline, generic_index, nullable, default, reference } => {
            assert!(!inline);
            assert_eq!(generic_index, None);
            assert!(!nullable);
            assert!(default.is_none());
            assert_eq!(idents(&reference.type_path), vec!["Pet".to_string()]);
            assert_eq!(reference.name_suffix, "_String_Vec_Owner");
            assert!(reference.concrete);
            assert!(reference.child_references.is_empty());
        }
        _ => panic!("expected a named type"),
    }
}

#[test]
fn inlined_type_carries_child_references() {
    let plan = non_generic_schema_plan(
        &tree(generic("Wrapper", vec![plain("Pet")])),
        vec![Feature::Inline(Inline(true)), Feature::Default(utoipa_gen::features::Default(None))],
        no_features(),
        &vec![],
    );
    match plan {
        SchemaPlan::Named { inline, generic_index, default, reference, .. } => {
            assert!(inline);
            assert_eq!(generic_index, None);
            assert!(matches!(default, Some(Feature::Default(_))));
            assert_eq!(reference.name_suffix, "_Pet");
            assert!(reference.concrete);
            assert_eq!(reference.child_references.len(), 1);
            assert_eq!(idents(&reference.child_references[0]), vec!["Pet".to_string()]);
        }
        _ => panic!("expected a named type"),
    }
}

#[test]
fn generic_parameter_takes_its_index() {
    let params = vec![
        GenericParam::Lifetime("a".to_string()),
        GenericParam::Type("K".to_string()),
        GenericParam::Type("T".to_string()),
    ];
    let plan = non_generic_schema_plan(&tree(plain("T")), vec![], no_features(), &params);
    match plan {
        SchemaPlan::Named { inline, generic_index, reference, .. } => {
            assert!(!inline);
            assert_eq!(generic_index, Some(1));
            assert!(!reference.concrete);
            assert_eq!(reference.name_suffix, "");
        }
        _ => panic!("expected a named type"),
    }
}

#[test]
fn tuple_members_that_are_options_are_nullable() {
    let plan = non_generic_schema_plan(
        &tree(RustType::Tuple(vec![plain("u8"), generic("Option", vec![plain("String")])])),
        vec![Feature::Nullable(Nullable(true))],
        no_features(),
        &vec![],
    );
    match plan {
        SchemaPlan::Array { nullable, nullable_items, deprecated, features } => {
            assert!(nullable);
            assert_eq!(nullable_items, vec![false, true]);
            assert!(deprecated.is_none());
            assert!(features.is_empty());
        }
        _ => panic!("expected an array"),
    }
}

#[test]
fn unit_is_the_empty_schema() {
    let plan = non_generic_schema_plan(&tree(RustType::Tuple(vec![])), vec![], no_features(), &vec![]);
    assert!(matches!(plan, SchemaPlan::Empty { .. }));
}

fn xml(wrapped: bool, name: Option<&str>) -> Feature {
    Feature::XmlAttr(XmlAttr(Xml {
        name: name.map(|n| n.to_string()),
        namespace: None,
        prefix: None,
        is_attribute: false,
        is_wrapped: wrapped,
        wrap_name: if wrapped { Some("pets".to_string()) } else { None },
    }))
}

#[test]
fn vec_plan_takes_array_features_and_passes_the_rest_to_items() {
    let features = vec![
        Feature::Inline(Inline(true)),
        Feature::MaxItems(MaxItems(NumberValue { minus: false, lit: "10".to_string() })),
        Feature::Nullable(Nullable(true)),
        Feature::Deprecated(Deprecated(true)),
        xml(true, Some("pet")),
    ];
    let (plan, item_features) =
        vec_schema_plan(&tree(generic("Vec", vec![plain("Pet")])), features).ok().unwrap();
    assert!(plan.example.is_none());
    assert!(plan.nullable);
    assert!(!plan.unique);
    assert!(matches!(plan.max_items, Some(Feature::MaxItems(_))));
    assert!(plan.min_items.is_none());
    assert!(plan.default.is_none());
    assert!(matches!(plan.deprecated, Some(Feature::Deprecated(Deprecated(true)))));
    match plan.xml {
        Some(Feature::XmlAttr(XmlAttr(x))) => {
            assert!(x.is_wrapped);
            assert_eq!(x.wrap_name, Some("pets".to_string()));
            assert_eq!(x.name, None);
        }
        _ => panic!("expected the xml of the vec"),
    }
    assert_eq!(item_features.len(), 2);
    assert!(item_features.iter().any(|f| matches!(f, Feature::Inline(_))));
    assert!(item_features.iter().any(|f| match f {
        Feature::XmlAttr(XmlAttr(x)) => !x.is_wrapped && x.name == Some("pet".to_string()),
        _ => false,
    }));
}

#[test]
fn set_plan_is_unique() {
    let (plan, item_features) =
        vec_schema_plan(&tree(generic("HashSet", vec![plain("u8")])), vec![]).ok().unwrap();
    assert!(plan.unique);
    assert!(!plan.nullable);
    assert!(item_features.is_empty());
}

#[test]
fn wrapped_xml_on_a_set_is_an_error() {
    let error = vec_schema_plan(&tree(generic("HashSet", vec![plain("u8")])), vec![xml(true, None)])
        .err()
        .unwrap();
    assert_eq!(error.message(), "cannot use `wrapped` attribute in non slice field type");
}
