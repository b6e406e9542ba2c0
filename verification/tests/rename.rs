use std::str::FromStr;
use utoipa_gen::rename::RenameRule;
use utoipa_gen::serde_attr::{rename, RenameTarget};

#[test]
fn rename_all_rename_rules() {
    let cases = [
        (RenameRule::Lower, "single", "single"),
        (RenameRule::Upper, "single", "SINGLE"),
        (RenameRule::Pascal, "single", "Single"),
        (RenameRule::Camel, "single", "single"),
        (RenameRule::Snake, "single", "single"),
        (RenameRule::ScreamingSnake, "single", "SINGLE"),
        (RenameRule::Kebab, "single", "single"),
        (RenameRule::ScreamingKebab, "single", "SINGLE"),
        (RenameRule::Lower, "multi_value", "multi_value"),
        (RenameRule::Upper, "multi_value", "MULTI_VALUE"),
        (RenameRule::Pascal, "multi_value", "MultiValue"),
        (RenameRule::Camel, "multi_value", "multiValue"),
        (RenameRule::Snake, "multi_value", "multi_value"),
        (RenameRule::ScreamingSnake, "multi_value", "MULTI_VALUE"),
        (RenameRule::Kebab, "multi_value", "multi-value"),
        (RenameRule::ScreamingKebab, "multi_value", "MULTI-VALUE"),
    ];
    for (rule, value, expected) in cases {
        assert_eq!(rule.rename(value), expected, "{:?} => {}", rule, value);
    }
}

#[test]
fn rename_all_rename_variant_rules() {
    let cases = [
        (RenameRule::Lower, "Single", "single"),
        (RenameRule::Upper, "Single", "SINGLE"),
        (RenameRule::Pascal, "Single", "Single"),
        (RenameRule::Camel, "Single", "single"),
        (RenameRule::Snake, "Single", "single"),
        (RenameRule::ScreamingSnake, "Single", "SINGLE"),
        (RenameRule::Kebab, "Single", "single"),
        (RenameRule::ScreamingKebab, "Single", "SINGLE"),
        (RenameRule::Lower, "MultiValue", "multivalue"),
        (RenameRule::Upper, "MultiValue", "MULTIVALUE"),
        (RenameRule::Pascal, "MultiValue", "MultiValue"),
        (RenameRule::Camel, "MultiValue", "multiValue"),
        (RenameRule::Snake, "MultiValue", "multi_value"),
        (RenameRule::ScreamingSnake, "MultiValue", "MULTI_VALUE"),
        (RenameRule::Kebab, "MultiValue", "multi-value"),
        (RenameRule::ScreamingKebab, "MultiValue", "MULTI-VALUE"),
    ];
    for (rule, value, expected) in cases {
        assert_eq!(rule.rename_variant(value), expected, "{:?} => {}", rule, value);
    }
}

#[test]
fn test_serde_rename_rule_from_str() {
    for s in [
        "lowercase",
        "UPPERCASE",
        "PascalCase",
        "camelCase",
        "snake_case",
        "SCREAMING_SNAKE_CASE",
        "kebab-case",
        "SCREAMING-KEBAB-CASE",
    ] {
        s.parse::<RenameRule>().unwrap();
    }
}

#[test]
fn unknown_rename_rule_is_an_error() {
    let err = "Camel".parse::<RenameRule>().unwrap_err();
    assert!(err.starts_with("unexpected rename rule, expected one of:"));
    assert!("".parse::<RenameRule>().is_err());
}

#[test]
fn rule_name_round_trip() {
    assert_eq!("kebab-case".parse::<RenameRule>().unwrap(), RenameRule::Kebab);
    assert_eq!("SCREAMING_SNAKE_CASE".parse::<RenameRule>().unwrap(), RenameRule::ScreamingSnake);
}

#[test]
fn rename_variant_snake_splits_only_inside() {
    assert_eq!(RenameRule::Snake.rename_variant("HTTPServer"), "h_t_t_p_server");
    assert_eq!(RenameRule::Kebab.rename_variant("ÄbcDef"), "Äbc-def");
}

#[test]
fn rename_prefers_explicit_value() {
    assert_eq!(
        rename(RenameTarget::Field, "my_field", Some("other".to_string()), Some(RenameRule::Camel)),
        Some("other".to_string())
    );
    assert_eq!(
        rename(RenameTarget::Field, "my_field", Some(String::new()), Some(RenameRule::Camel)),
        Some("myField".to_string())
    );
    assert_eq!(
        rename(RenameTarget::Variant, "MyVariant", None, Some(RenameRule::Kebab)),
        Some("my-variant".to_string())
    );
    assert_eq!(rename(RenameTarget::Variant, "MyVariant", None, None), None);
}

#[test]
fn rename_rule_parses_through_from_str() {
    assert!(matches!(RenameRule::from_str("kebab-case"), Ok(RenameRule::Kebab)));
    assert!(RenameRule::from_str("Kebab").is_err());
}
