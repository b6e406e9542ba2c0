use utoipa_gen::alias::resolve_alias;
use utoipa_gen::component_plan::{
    checked_component_schema_plan, tree_plan_ok, component_references, component_schema_plan, flattened_map_schema_plan, map_schema_plan,
    named_fields_references, named_property_plan, unnamed_schema_plan, ComponentPlan,
    PropertyPlan,
};
use utoipa_gen::component_schema::SchemaPlan;
use utoipa_gen::component_type::{DataType, TypeFeatures, Variant};
use utoipa_gen::config::Config;
use utoipa_gen::enums::{variant_wrap, VariantShape, VariantWrap};
use utoipa_gen::features::{
    AdditionalProperties, Deprecated, Example, Feature, Nullable, Pattern, ValueType,
};
use utoipa_gen::named_struct::{named_field, named_field_options, named_struct_layout, NamedField};
use utoipa_gen::rust_type::{clone_type, PathArguments, RustType, TypeArgument, TypePath, TypeSegment};
use utoipa_gen::serde_attr::{SerdeContainer, SerdeEnumRepr, SerdeValue};
use utoipa_gen::type_tree::{from_type, TypeTree};

fn plain(name: &str) -> RustType {
    RustType::Path(TypePath {
        segments: vec![TypeSegment { ident: name.to_string(), arguments: PathArguments::Empty }],
    })
}

fn generic(name: &str, args: Vec<RustType>) -> RustType {
    RustType::Path(TypePath {
        segments: vec![TypeSegment {
            ident: name.to_string(),
            arguments: PathArguments::AngleBracketed(args.into_iter().map(TypeArgument::Type).collect()),
        }],
    })
}

fn tree(ty: RustType) -> TypeTree {
    from_type(&ty).ok().unwrap()
}

fn no_features() -> TypeFeatures {
    TypeFeatures {
        chrono: false,
        chrono_with_format: false,
        decimal: false,
        rocket_extras: false,
        uuid: false,
        time: false,
    }
}

fn rules() -> SerdeValue {
    SerdeValue {
        skip: false,
        rename: None,
        default: false,
        flatten: false,
        skip_serializing_if: false,
        double_option: false,
    }
}

fn container() -> SerdeContainer {
    SerdeContainer {
        rename_all: None,
        tag: String::new(),
        content: String::new(),
        untagged: false,
        default: false,
    }
}

fn plan_of(ty: RustType, features: Vec<Feature>) -> ComponentPlan {
    component_schema_plan(&tree(ty), features, no_features(), &vec![]).ok().unwrap()
}

/// The primitive schema of a plan: (data type, nullable, format, minimum zero).
fn primitive(plan: &ComponentPlan) -> (DataType, bool, Option<Variant>, bool) {
    match plan {
        ComponentPlan::Schema { plan: SchemaPlan::Primitive { data_type, nullable, format, minimum_zero, .. }, .. } => {
            (*data_type, *nullable, *format, *minimum_zero)
        }
        _ => panic!("expected a primitive schema"),
    }
}

fn named_suffix(plan: &ComponentPlan) -> (String, String) {
    match plan {
        ComponentPlan::Schema { plan: SchemaPlan::Named { reference, .. }, .. } => (
            reference.type_path.segments.last().unwrap().ident.clone(),
            reference.name_suffix.clone(),
        ),
        _ => panic!("expected a named schema"),
    }
}

#[test]
fn readme_pet_field_schemas() {
    assert_eq!(primitive(&plan_of(plain("u64"), vec![])), (DataType::Integer, false, Some(Variant::Int64), true));
    assert_eq!(primitive(&plan_of(plain("String"), vec![])), (DataType::String, false, None, false));
    assert_eq!(
        primitive(&plan_of(generic("Option", vec![plain("i32")]), vec![])),
        (DataType::Integer, true, Some(Variant::Int32), false)
    );
}

#[test]
fn readme_pet_struct_properties_and_required() {
    let fields = [("id", plain("u64")), ("name", plain("String")), ("age", generic("Option", vec![plain("i32")]))];
    let mut named: Vec<NamedField> = Vec::new();
    let mut properties: Vec<PropertyPlan> = Vec::new();
    for (name, ty) in fields {
        let own = tree(ty);
        let options = named_field_options(vec![], &vec![], false, "Pet", name, false);
        named.push(named_field(name.to_string(), rules(), &options, &own, &None));
        properties.push(
            named_property_plan(options.schema_with, false, options.features, &own, &None, no_features(), &vec![])
                .ok()
                .unwrap(),
        );
    }
    let layout = named_struct_layout("Pet", &named, &container(), None, false).ok().unwrap();
    let required: Vec<(String, bool)> =
        layout.properties.iter().map(|p| (p.name.clone(), p.required)).collect();
    assert_eq!(
        required,
        vec![("id".to_string(), true), ("name".to_string(), true), ("age".to_string(), false)]
    );
    let schemas: Vec<(DataType, bool, Option<Variant>, bool)> = properties
        .iter()
        .map(|p| match p {
            PropertyPlan::Schema(c) => primitive(c),
            _ => panic!("expected a schema"),
        })
        .collect();
    assert_eq!(
        schemas,
        vec![
            (DataType::Integer, false, Some(Variant::Int64), true),
            (DataType::String, false, None, false),
            (DataType::Integer, true, Some(Variant::Int32), false),
        ]
    );
    assert!(named_fields_references(&properties, &vec![false, false, false]).is_empty());
}

#[test]
fn config_aliases_give_property_schemas() {
    let config = Config::new()
        .alias_for("MyType", "bool")
        .alias_for("MyInt", "Option<i32>")
        .alias_for("MyValue", "str")
        .alias_for("MyDateTime", "String");
    // (field, own type, value_type, expected schema, required)
    let cases = [
        ("name", plain("String"), None, (DataType::String, false, None, false), true),
        ("my_type", plain("String"), Some(plain("MyType")), (DataType::Boolean, false, None, false), true),
        ("my_int", plain("String"), Some(plain("MyInt")), (DataType::Integer, true, Some(Variant::Int32), false), false),
        ("my_value", plain("bool"), Some(plain("MyValue")), (DataType::String, false, None, false), true),
        ("date", plain("MyDateTime"), None, (DataType::String, false, None, false), true),
    ];
    let mut named: Vec<NamedField> = Vec::new();
    for (name, ty, value_type, expected, _) in cases.iter() {
        let own = match value_type {
            Some(v) => ValueType(clone_type(v)).as_type_tree().ok().unwrap(),
            None => tree(clone_type(ty)),
        };
        let alias = resolve_alias(&own, &config).unwrap().ok().unwrap();
        let options = named_field_options(vec![], &vec![], false, "AliasValues", name, false);
        named.push(named_field(name.to_string(), rules(), &options, &own, &alias));
        let property =
            named_property_plan(None, false, options.features, &own, &alias, no_features(), &vec![]).ok().unwrap();
        match property {
            PropertyPlan::Schema(c) => assert_eq!(primitive(&c), *expected, "{name}"),
            _ => panic!("expected a schema"),
        }
    }
    let layout = named_struct_layout("AliasValues", &named, &container(), None, false).ok().unwrap();
    let required: Vec<String> =
        layout.properties.iter().filter(|p| p.required).map(|p| p.name.clone()).collect();
    let expected: Vec<String> = cases.iter().filter(|c| c.4).map(|c| c.0.to_string()).collect();
    assert_eq!(required, expected);
}

#[test]
fn enum_variant_aliases_give_references() {
    let config = Config::new()
        .alias_for("EntryAlias", "Entry<i32>")
        .alias_for("EntryString", "Entry<String>");
    for (variant, alias_name, suffix) in
        [("Transaction", "EntryAlias", "_i32"), ("TransactionEntryString", "EntryString", "_String")]
    {
        let own = tree(plain(alias_name));
        let alias = resolve_alias(&own, &config).unwrap().ok().unwrap().unwrap();
        let plan = component_schema_plan(&alias, vec![], no_features(), &vec![]).ok().unwrap();
        assert_eq!(named_suffix(&plan), ("Entry".to_string(), suffix.to_string()));
        let refs = component_references(&plan);
        assert_eq!(refs.len(), 1);
        assert_eq!(refs[0].name_suffix, suffix);
        match variant_wrap(
            &SerdeEnumRepr::ExternallyTagged,
            &VariantShape::Unnamed { fields: 1, has_reference: true },
            &variant.to_string(),
        ) {
            Ok(VariantWrap::Keyed { name }) => assert_eq!(name, variant),
            _ => panic!("expected a keyed object"),
        }
    }
}

#[test]
fn map_values_are_the_second_argument_schema() {
    let plan = plan_of(
        generic("HashMap", vec![plain("String"), plain("Pet")]),
        vec![Feature::Nullable(Nullable(true)), Feature::Deprecated(Deprecated(true))],
    );
    match &plan {
        ComponentPlan::MapObject { map, values } => {
            assert!(map.nullable);
            assert!(map.additional_properties.is_none());
            assert!(matches!(map.deprecated, Some(Feature::Deprecated(_))));
            assert_eq!(named_suffix(values.as_ref().unwrap()), ("Pet".to_string(), String::new()));
        }
        _ => panic!("expected a map"),
    }
    let refs = component_references(&plan);
    assert_eq!(refs.len(), 1);
    assert_eq!(refs[0].type_path.segments[0].ident, "Pet");
}

#[test]
fn explicit_additional_properties_replace_the_values() {
    let plan = plan_of(
        generic("BTreeMap", vec![plain("String"), plain("Pet")]),
        vec![Feature::AdditionalProperties(AdditionalProperties(true))],
    );
    match &plan {
        ComponentPlan::MapObject { map, values } => {
            assert!(matches!(map.additional_properties, Some(Feature::AdditionalProperties(_))));
            assert!(values.is_none());
        }
        _ => panic!("expected a map"),
    }
    assert!(component_references(&plan).is_empty());
}

#[test]
fn map_features_are_taken_in_turn() {
    let (map, left) = map_schema_plan(vec![
        Feature::Example(Example("{}".to_string())),
        Feature::Nullable(Nullable(false)),
        Feature::Pattern(Pattern("x".to_string())),
    ]);
    assert!(map.example.is_some());
    assert!(!map.nullable);
    assert_eq!(left.len(), 1);
    let (flat, rest) = flattened_map_schema_plan(vec![Feature::Nullable(Nullable(true))]);
    assert!(matches!(flat.nullable, Some(Feature::Nullable(Nullable(true)))));
    assert!(rest.is_empty());
}

#[test]
fn array_items_are_the_first_argument_schema_and_references_are_appended() {
    let plan = plan_of(generic("Vec", vec![generic("Option", vec![plain("Pet")])]), vec![]);
    match &plan {
        ComponentPlan::Array { array, items } => {
            assert!(!array.unique);
            match items.as_ref() {
                ComponentPlan::Schema { plan: SchemaPlan::Named { nullable, .. }, .. } => assert!(*nullable),
                _ => panic!("expected a named item"),
            }
        }
        _ => panic!("expected an array"),
    }
    let refs = component_references(&plan);
    assert_eq!(refs.len(), 1);
    assert_eq!(refs[0].type_path.segments[0].ident, "Pet");
}

#[test]
fn boxed_type_has_the_schema_of_its_argument() {
    assert_eq!(
        primitive(&plan_of(generic("Box", vec![plain("u64")]), vec![])),
        primitive(&plan_of(plain("u64"), vec![]))
    );
    assert_eq!(
        primitive(&plan_of(generic("Option", vec![plain("u8")]), vec![Feature::Nullable(Nullable(false))])),
        (DataType::Integer, false, Some(Variant::Int32), true)
    );
}

#[test]
fn tuple_members_get_their_schemas() {
    let plan = plan_of(RustType::Tuple(vec![plain("u8"), generic("Option", vec![plain("String")])]), vec![]);
    match &plan {
        ComponentPlan::Schema { plan: SchemaPlan::Array { nullable_items, .. }, members } => {
            assert_eq!(nullable_items, &vec![false, true]);
            assert_eq!(members.len(), 2);
            assert_eq!(primitive(&members[0]), (DataType::Integer, false, Some(Variant::Int32), true));
            assert_eq!(primitive(&members[1]), (DataType::String, true, None, false));
        }
        _ => panic!("expected a tuple"),
    }
}

#[test]
fn flattened_map_field_and_skipped_references() {
    let own = tree(generic("HashMap", vec![plain("String"), plain("Pet")]));
    let flattened = named_property_plan(None, true, vec![], &own, &None, no_features(), &vec![]).ok().unwrap();
    match &flattened {
        PropertyPlan::FlattenedMap { values, .. } => {
            assert_eq!(named_suffix(values), ("Pet".to_string(), String::new()));
        }
        _ => panic!("expected a flattened map"),
    }
    let pet = named_property_plan(None, false, vec![], &tree(plain("Pet")), &None, no_features(), &vec![])
        .ok()
        .unwrap();
    let owner = named_property_plan(None, false, vec![], &tree(plain("Owner")), &None, no_features(), &vec![])
        .ok()
        .unwrap();
    let refs = named_fields_references(&vec![flattened, pet, owner], &vec![false, true, false]);
    assert_eq!(refs.len(), 1);
    assert_eq!(refs[0].type_path.segments[0].ident, "Owner");
}

#[test]
fn single_unnamed_field_carries_the_pattern() {
    let plan = unnamed_schema_plan(
        &tree(plain("String")),
        &None,
        vec![Feature::Pattern(Pattern("^[a-z]+$".to_string()))],
        no_features(),
        &vec![],
    )
    .ok()
    .unwrap();
    match plan.pattern {
        Some(Feature::Pattern(Pattern(p))) => assert_eq!(p, "^[a-z]+$"),
        _ => panic!("expected the pattern"),
    }
    assert_eq!(primitive(&plan.schema), (DataType::String, false, None, false));
}

#[test]
fn wrapped_xml_error_reaches_the_whole_schema() {
    let error = component_schema_plan(
        &tree(generic("Option", vec![generic("HashSet", vec![plain("u8")])])),
        vec![Feature::XmlAttr(utoipa_gen::features::XmlAttr(utoipa_gen::xml::Xml {
            name: None,
            namespace: None,
            prefix: None,
            is_attribute: false,
            is_wrapped: true,
            wrap_name: None,
        }))],
        no_features(),
        &vec![],
    )
    .err()
    .unwrap();
    assert_eq!(error.message(), "cannot use `wrapped` attribute in non slice field type");
}

#[test]
fn trees_with_missing_parts_are_not_planned() {
    assert!(tree_plan_ok(&tree(generic("Vec", vec![generic("HashMap", vec![plain("String"), plain("Pet")])]))));
    let tuple_argument = tree(generic("Pair", vec![RustType::Tuple(vec![plain("u8"), plain("u8")])]));
    assert!(!tree_plan_ok(&tuple_argument));
    assert!(checked_component_schema_plan(&tuple_argument, vec![], no_features(), &vec![]).is_none());
    let one_argument_map = tree(generic("HashMap", vec![plain("String")]));
    assert!(!tree_plan_ok(&one_argument_map));
    let planned = checked_component_schema_plan(&tree(plain("u64")), vec![], no_features(), &vec![]);
    assert_eq!(primitive(&planned.unwrap().ok().unwrap()), (DataType::Integer, false, Some(Variant::Int64), true));
}
