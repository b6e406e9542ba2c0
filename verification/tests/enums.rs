use utoipa_gen::enums::{
    check_discriminator, enum_schema_parts, plain_enum_plan, plain_enum_variant_names,
    split_enum_features, variant_splits_features, variant_wrap, MixedVariant, PlainEnumPlan,
    PlainVariant, VariantFields, VariantShape, VariantWrap,
};
use utoipa_gen::rust_type::{PathArguments, TypeSegment, RustType, TypePath};
use utoipa_gen::features::{Deprecated, Feature, FeatureKind, Inline, Rename, RenameAll, Title};
use utoipa_gen::rename::RenameRule;
use utoipa_gen::serde_attr::{SerdeContainer, SerdeEnumRepr, SerdeValue};

fn rules(skip: bool, rename: Option<&str>) -> SerdeValue {
    SerdeValue {
        skip,
        rename: rename.map(|r| r.to_string()),
        default: false,
        flatten: false,
        skip_serializing_if: false,
        double_option: false,
    }
}

fn variant(ident: &str, rules: SerdeValue, features: Vec<Feature>) -> PlainVariant {
    PlainVariant { ident: ident.to_string(), rules, features }
}

fn container(rename_all: Option<RenameRule>) -> SerdeContainer {
    SerdeContainer { rename_all, tag: String::new(), content: String::new(), untagged: false, default: false }
}

#[test]
fn plain_enum_keeps_variant_names_without_rules() {
    let variants = vec![
        variant("Active", rules(false, None), vec![]),
        variant("Inactive", rules(false, None), vec![]),
    ];
    let names = plain_enum_variant_names(variants, &container(None), None);
    assert_eq!(names, vec!["Active".to_string(), "Inactive".to_string()]);
}

#[test]
fn plain_enum_drops_skipped_variants() {
    let variants = vec![
        variant("Active", rules(false, None), vec![]),
        variant("Hidden", rules(true, None), vec![]),
        variant("Inactive", rules(false, None), vec![]),
    ];
    let names = plain_enum_variant_names(variants, &container(None), None);
    assert_eq!(names, vec!["Active".to_string(), "Inactive".to_string()]);
}

#[test]
fn plain_enum_renames_by_precedence() {
    let variants = vec![
        variant("PendingReview", rules(false, Some("pending")), vec![Feature::Rename(Rename("x".to_string()))]),
        variant("InProgress", rules(false, None), vec![Feature::Rename(Rename("working".to_string()))]),
        variant("DoneWell", rules(false, None), vec![]),
    ];
    let rename_all = RenameAll(RenameRule::Upper);
    let names =
        plain_enum_variant_names(variants, &container(Some(RenameRule::Kebab)), Some(&rename_all));
    assert_eq!(
        names,
        vec!["pending".to_string(), "working".to_string(), "done-well".to_string()]
    );
}

#[test]
fn plain_enum_uses_rename_all_feature_without_serde_rule() {
    let variants = vec![variant("DoneWell", rules(false, None), vec![])];
    let rename_all = RenameAll(RenameRule::ScreamingSnake);
    let names = plain_enum_variant_names(variants, &container(None), Some(&rename_all));
    assert_eq!(names, vec!["DONE_WELL".to_string()]);
}

fn plain_type(name: &str) -> RustType {
    RustType::Path(TypePath {
        segments: vec![TypeSegment { ident: name.to_string(), arguments: PathArguments::Empty }],
    })
}

fn single(name: &str, inline: bool) -> MixedVariant {
    MixedVariant { fields: VariantFields::Unnamed(vec![plain_type(name)]), inline }
}

#[test]
fn discriminator_allowed_on_untagged_object_variants() {
    let variants = vec![single("Cat", false), single("Dog", false)];
    assert!(check_discriminator(&variants, true, true).is_none());
}

#[test]
fn no_discriminator_is_never_an_error() {
    let variants = vec![MixedVariant { fields: VariantFields::Unit, inline: false }];
    assert!(check_discriminator(&variants, false, false).is_none());
}

#[test]
fn discriminator_refused_on_primitive_inlined_or_tagged() {
    let expected = "Found discriminator in not discriminator supported context\n\n\
help = `discriminator` is only supported on enums with `#[serde(untagged)]` having unnamed field variants with single reference field.\n\
note = Read more about discriminators from the specs <https://spec.openapis.org/oas/latest.html#discriminator-object>\n\
note = Unnamed field variants with inlined or primitive schemas does not support discriminator.";
    let primitive = vec![single("Cat", false), single("i32", false)];
    let d = check_discriminator(&primitive, true, true).expect("an error");
    assert_eq!(d.rendered_messages(), vec![expected.to_string()]);

    let inlined = vec![single("Cat", true)];
    assert!(check_discriminator(&inlined, true, true).is_some());

    let tagged = vec![single("Cat", false)];
    assert!(check_discriminator(&tagged, false, true).is_some());

    let named = vec![MixedVariant { fields: VariantFields::Named, inline: false }];
    assert!(check_discriminator(&named, true, true).is_some());
}

#[test]
fn variant_features_split_between_enum_and_variant() {
    let features = vec![
        Feature::Inline(Inline(true)),
        Feature::Title(Title("t".to_string())),
        Feature::Rename(Rename("r".to_string())),
        Feature::Deprecated(Deprecated(true)),
    ];
    let (enum_features, variant_features) = split_enum_features(features);
    let kinds = |fs: &Vec<Feature>| fs.iter().map(|f| f.kind()).collect::<Vec<_>>();
    assert_eq!(kinds(&enum_features), vec![FeatureKind::Title, FeatureKind::Deprecated]);
    assert_eq!(kinds(&variant_features), vec![FeatureKind::Inline, FeatureKind::Rename]);
}

#[test]
fn enum_schema_kind_and_features() {
    let plain = vec![VariantFields::Unit, VariantFields::Unit];
    let (is_plain, schema_as, bound, features) =
        enum_schema_parts(&plain, vec![Feature::Title(Title("t".to_string()))], true);
    assert!(is_plain);
    assert!(schema_as.is_none() && bound.is_none());
    assert_eq!(
        features.iter().map(|f| f.kind()).collect::<Vec<_>>(),
        vec![FeatureKind::Title, FeatureKind::Deprecated]
    );
    let mixed = vec![VariantFields::Unit, VariantFields::Named];
    let (is_plain, _, _, features) = enum_schema_parts(&mixed, vec![], false);
    assert!(!is_plain);
    assert!(features.is_empty());
}

fn two_names() -> Vec<String> {
    vec!["Active".to_string(), "Inactive".to_string()]
}

fn pair(a: &str, b: &str) -> (String, String) {
    (a.to_string(), b.to_string())
}

#[test]
fn plain_enum_plan_externally_tagged_lists_names() {
    match plain_enum_plan(&SerdeEnumRepr::ExternallyTagged, &two_names()) {
        PlainEnumPlan::Names(names) => assert_eq!(names, two_names()),
        _ => panic!("expected one string enum"),
    }
}

#[test]
fn plain_enum_plan_internally_tagged_is_one_of_tag_objects() {
    let repr = SerdeEnumRepr::InternallyTagged { tag: "type".to_string() };
    match plain_enum_plan(&repr, &two_names()) {
        PlainEnumPlan::OneOf(objects) => assert_eq!(
            objects,
            vec![vec![pair("type", "Active")], vec![pair("type", "Inactive")]]
        ),
        _ => panic!("expected a oneOf"),
    }
}

#[test]
fn plain_enum_plan_untagged_is_null() {
    assert!(matches!(plain_enum_plan(&SerdeEnumRepr::Untagged, &two_names()), PlainEnumPlan::Null));
}

#[test]
fn plain_enum_plan_adjacently_tagged_holds_content_and_tag() {
    let repr = SerdeEnumRepr::AdjacentlyTagged { tag: "t".to_string(), content: "c".to_string() };
    match plain_enum_plan(&repr, &two_names()) {
        PlainEnumPlan::OneOf(objects) => assert_eq!(
            objects,
            vec![
                vec![pair("c", "Active"), pair("t", "c")],
                vec![pair("c", "Inactive"), pair("t", "c")],
            ]
        ),
        _ => panic!("expected a oneOf"),
    }
}

#[test]
fn plain_enum_plan_empty_internally_tagged_is_empty_one_of() {
    let repr = SerdeEnumRepr::InternallyTagged { tag: "type".to_string() };
    match plain_enum_plan(&repr, &vec![]) {
        PlainEnumPlan::OneOf(objects) => assert!(objects.is_empty()),
        _ => panic!("expected a oneOf"),
    }
}

fn internal() -> SerdeEnumRepr {
    SerdeEnumRepr::InternallyTagged { tag: "type".to_string() }
}

fn adjacent() -> SerdeEnumRepr {
    SerdeEnumRepr::AdjacentlyTagged { tag: "t".to_string(), content: "c".to_string() }
}

#[test]
fn variant_wrap_externally_tagged_keys_by_name() {
    let name = "Cat".to_string();
    match variant_wrap(&SerdeEnumRepr::ExternallyTagged, &VariantShape::Named { all_of: false }, &name) {
        Ok(VariantWrap::Keyed { name }) => assert_eq!(name, "Cat"),
        _ => panic!("expected a keyed object"),
    }
    match variant_wrap(&SerdeEnumRepr::ExternallyTagged, &VariantShape::Unit, &name) {
        Ok(VariantWrap::Name { name }) => assert_eq!(name, "Cat"),
        _ => panic!("expected a name"),
    }
}

#[test]
fn variant_wrap_internally_tagged_adds_the_tag() {
    let name = "Cat".to_string();
    match variant_wrap(&internal(), &VariantShape::Named { all_of: true }, &name) {
        Ok(VariantWrap::Tagged { tag, name, as_item }) => {
            assert_eq!(tag, "type");
            assert_eq!(name, "Cat");
            assert!(as_item);
        }
        _ => panic!("expected a tagged schema"),
    }
    match variant_wrap(&internal(), &VariantShape::Unnamed { fields: 1, has_reference: false }, &name) {
        Ok(VariantWrap::Tagged { as_item, .. }) => assert!(!as_item),
        _ => panic!("expected a tagged schema"),
    }
    match variant_wrap(&internal(), &VariantShape::Unit, &name) {
        Ok(VariantWrap::TaggedName { tag, name }) => {
            assert_eq!(tag, "type");
            assert_eq!(name, "Cat");
        }
        _ => panic!("expected a tagged name"),
    }
}

#[test]
fn variant_wrap_untagged_is_the_content_or_null() {
    let name = "Cat".to_string();
    assert!(matches!(
        variant_wrap(&SerdeEnumRepr::Untagged, &VariantShape::Unnamed { fields: 2, has_reference: true }, &name),
        Ok(VariantWrap::Content)
    ));
    assert!(matches!(variant_wrap(&SerdeEnumRepr::Untagged, &VariantShape::Unit, &name), Ok(VariantWrap::Null)));
    assert!(!variant_splits_features(&SerdeEnumRepr::Untagged, &VariantShape::Named { all_of: false }));
    assert!(!variant_splits_features(&internal(), &VariantShape::Unit));
    assert!(variant_splits_features(&internal(), &VariantShape::Named { all_of: false }));
}

#[test]
fn variant_wrap_adjacently_tagged_refuses_tuples() {
    let name = "Cat".to_string();
    match variant_wrap(&adjacent(), &VariantShape::Unnamed { fields: 1, has_reference: true }, &name) {
        Ok(VariantWrap::Adjacent { tag, content, name }) => {
            assert_eq!(tag, "t");
            assert_eq!(content, "c");
            assert_eq!(name, "Cat");
        }
        _ => panic!("expected an adjacent schema"),
    }
    let error = variant_wrap(&adjacent(), &VariantShape::Unnamed { fields: 2, has_reference: true }, &name)
        .err()
        .unwrap();
    assert_eq!(
        error.message(),
        "Unnamed (tuple) enum variants are unsupported for internally tagged enums using the `tag = ` serde attribute"
    );
}
