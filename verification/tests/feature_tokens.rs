use utoipa_gen::feature_tokens::{feature_tokens, FeatureTokens};
use utoipa_gen::features::FeatureKind;

fn method(kind: FeatureKind) -> String {
    match feature_tokens(kind) {
        Ok(FeatureTokens::Method(m)) => m,
        _ => panic!("expected a builder method"),
    }
}

#[test]
fn builder_methods_of_features() {
    assert_eq!(method(FeatureKind::Default), "default");
    assert_eq!(method(FeatureKind::XmlAttr), "xml");
    assert_eq!(method(FeatureKind::MaxProperties), "max_properties");
    assert_eq!(method(FeatureKind::MinProperties), "min_properties");
    assert_eq!(method(FeatureKind::Required), "required");
}

#[test]
fn rename_schema_with_bound_and_inline() {
    assert!(matches!(feature_tokens(FeatureKind::Rename), Ok(FeatureTokens::Value)));
    assert!(matches!(feature_tokens(FeatureKind::SchemaWith), Ok(FeatureTokens::Value)));
    assert!(matches!(feature_tokens(FeatureKind::Bound), Ok(FeatureTokens::Nothing)));
    assert!(matches!(feature_tokens(FeatureKind::Inline), Ok(FeatureTokens::Nothing)));
}

#[test]
fn features_read_elsewhere_are_errors() {
    let cases = [
        (FeatureKind::Nullable, "Nullable does not support `ToTokens`"),
        (FeatureKind::RenameAll, "RenameAll feature does not support `ToTokens`"),
        (FeatureKind::ValueType, "ValueType feature does not support `ToTokens`"),
        (FeatureKind::NoRecursion, "NoRecursion does not support `ToTokens`"),
        (FeatureKind::IntoParamsNames, "Names feature does not support `ToTokens`"),
        (FeatureKind::As, "As does not support `ToTokens`"),
        (FeatureKind::Ignore, "Ignore does not support `ToTokens`"),
    ];
    for (kind, message) in cases {
        match feature_tokens(kind) {
            Err(d) => assert_eq!(d.message(), message),
            Ok(_) => panic!("expected an error"),
        }
    }
}
