use utoipa_gen::features::{Feature, Rename, RenameAll};
use utoipa_gen::rename::RenameRule;
use utoipa_gen::serde_attr::{
    is_default, is_required, parse_container, parse_value, rename_enum_variant, SerdeContainer,
    SerdeEnumRepr, SerdeValue,
};
use utoipa_gen::tokens::{Attribute, Token};

fn ident(s: &str) -> Token {
    Token::Ident(s.to_string())
}

fn lit(s: &str) -> Token {
    Token::Literal(format!("\"{s}\""))
}

fn serde_attr(args: Vec<Token>) -> Attribute {
    Attribute { path: vec!["serde".to_string()], args, name_value_str: None }
}

fn empty_value() -> SerdeValue {
    SerdeValue {
        skip: false,
        rename: None,
        default: false,
        flatten: false,
        skip_serializing_if: false,
        double_option: false,
    }
}

fn empty_container() -> SerdeContainer {
    SerdeContainer { rename_all: None, tag: String::new(), content: String::new(), untagged: false, default: false }
}

#[test]
fn serde_value_reads_known_arguments() {
    let value = SerdeValue::parse(&vec![
        ident("skip"),
        Token::Punct(','),
        ident("rename"),
        Token::Punct('='),
        lit("new_name"),
        Token::Punct(','),
        ident("flatten"),
        Token::Punct(','),
        ident("default"),
        Token::Punct(','),
        ident("unknown"),
    ]);
    assert!(value.skip);
    assert!(value.flatten);
    assert!(value.default);
    assert_eq!(value.rename, Some("new_name".to_string()));
}

#[test]
fn serde_value_rename_without_literal_is_ignored() {
    let value = SerdeValue::parse(&vec![ident("rename"), Token::Punct(','), ident("skip")]);
    assert_eq!(value.rename, None);
    assert!(value.skip);
}

#[test]
fn serde_container_reads_rename_all_tag_and_default() {
    let container = SerdeContainer::parse(&vec![
        ident("rename_all"),
        Token::Punct('='),
        lit("camelCase"),
        Token::Punct(','),
        ident("tag"),
        Token::Punct('='),
        lit("type"),
        Token::Punct(','),
        ident("default"),
    ])
    .unwrap();
    assert_eq!(container.rename_all, Some(RenameRule::Camel));
    assert_eq!(container.tag, "type");
    assert!(container.default);
}

#[test]
fn serde_container_unknown_rule_is_an_error() {
    let error = SerdeContainer::parse(&vec![ident("rename_all"), Token::Punct('='), lit("Title Case")])
        .err()
        .unwrap();
    assert_eq!(
        error,
        "unexpected rename rule, expected one of: \"lowercase\", \"UPPERCASE\", \"PascalCase\", \"camelCase\", \"snake_case\", \"SCREAMING_SNAKE_CASE\", \"kebab-case\", \"SCREAMING-KEBAB-CASE\""
    );
}

#[test]
fn parse_value_takes_the_first_serde_attribute() {
    let attrs = vec![
        Attribute { path: vec!["doc".to_string()], args: vec![], name_value_str: Some(" x".to_string()) },
        serde_attr(vec![ident("skip")]),
        serde_attr(vec![ident("flatten")]),
    ];
    let value = parse_value(&attrs).unwrap();
    assert!(value.skip);
    assert!(!value.flatten);
    assert!(parse_value(&vec![]).is_none());
}

#[test]
fn parse_container_reports_errors_and_absence() {
    let attrs = vec![serde_attr(vec![ident("rename_all"), Token::Punct('='), lit("nope")])];
    assert!(parse_container(&attrs).is_err());
    let attrs = vec![serde_attr(vec![ident("default")])];
    assert!(parse_container(&attrs).unwrap().unwrap().default);
    assert!(parse_container(&vec![]).unwrap().is_none());
}

#[test]
fn required_unless_default_or_optional() {
    let field = empty_value();
    let container = empty_container();
    assert!(is_required(&field, &container));
    assert!(!is_default(&container, &field));

    let defaulted = SerdeContainer { default: true, ..empty_container() };
    assert!(is_default(&defaulted, &field));
    assert!(!is_required(&field, &defaulted));

    let skipped = SerdeValue { skip_serializing_if: true, ..empty_value() };
    assert!(!is_required(&skipped, &container));
    let double = SerdeValue { double_option: true, ..empty_value() };
    assert!(!is_required(&double, &container));
}

#[test]
fn enum_variant_rename_prefers_serde_then_feature_then_rules() {
    let container = empty_container();

    let mut features = vec![Feature::Rename(Rename("FromFeature".to_string()))];
    let serde = SerdeValue { rename: Some("from_serde".to_string()), ..empty_value() };
    assert_eq!(
        rename_enum_variant("Variant", &mut features, &serde, &container, None),
        Some("from_serde".to_string())
    );
    assert!(features.is_empty());

    let mut features = vec![Feature::Rename(Rename("FromFeature".to_string()))];
    assert_eq!(
        rename_enum_variant("Variant", &mut features, &empty_value(), &container, None),
        Some("FromFeature".to_string())
    );

    let mut features = vec![];
    let rule = RenameAll(RenameRule::ScreamingSnake);
    assert_eq!(
        rename_enum_variant("MyVariant", &mut features, &empty_value(), &container, Some(&rule)),
        Some("MY_VARIANT".to_string())
    );

    let camel = SerdeContainer { rename_all: Some(RenameRule::Camel), ..empty_container() };
    assert_eq!(
        rename_enum_variant("MyVariant", &mut features, &empty_value(), &camel, Some(&rule)),
        Some("myVariant".to_string())
    );

    assert_eq!(
        rename_enum_variant("MyVariant", &mut features, &empty_value(), &container, None),
        None
    );
}

#[test]
fn serde_container_reads_content_and_untagged() {
    let container = SerdeContainer::parse(&vec![
        ident("tag"),
        Token::Punct('='),
        lit("t"),
        Token::Punct(','),
        ident("content"),
        Token::Punct('='),
        lit("c"),
        Token::Punct(','),
        ident("untagged"),
    ])
    .unwrap();
    assert_eq!(container.tag, "t");
    assert_eq!(container.content, "c");
    assert!(container.untagged);
}

#[test]
fn enum_repr_follows_tag_content_and_untagged() {
    let external = empty_container();
    assert!(matches!(external.enum_repr(), SerdeEnumRepr::ExternallyTagged));

    let internal = SerdeContainer { tag: "type".to_string(), ..empty_container() };
    match internal.enum_repr() {
        SerdeEnumRepr::InternallyTagged { tag } => assert_eq!(tag, "type"),
        _ => panic!("expected an internally tagged representation"),
    }

    let adjacent =
        SerdeContainer { tag: "t".to_string(), content: "c".to_string(), ..empty_container() };
    match adjacent.enum_repr() {
        SerdeEnumRepr::AdjacentlyTagged { tag, content } => {
            assert_eq!(tag, "t");
            assert_eq!(content, "c");
        }
        _ => panic!("expected an adjacently tagged representation"),
    }

    let unfinished = SerdeContainer { content: "c".to_string(), ..empty_container() };
    match unfinished.enum_repr() {
        SerdeEnumRepr::UnfinishedAdjacentlyTagged { content } => assert_eq!(content, "c"),
        _ => panic!("expected an unfinished representation"),
    }

    let untagged = SerdeContainer { untagged: true, tag: "t".to_string(), ..empty_container() };
    assert!(matches!(untagged.enum_repr(), SerdeEnumRepr::Untagged));
}
