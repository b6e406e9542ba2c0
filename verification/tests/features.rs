use utoipa_gen::features::{
    pop_by, schema_kind, As, Check, Feature, FeatureKind, Inline, IntoInner, IntoParamsNames,
    IsInline, MaxItems, MaxLength, Merge, Minimum, MultipleOf, NamedFieldStructFeatures, Nullable,
    NumberValue, ParameterIn, ParameterInKind, Pattern, Rename, Required, SchemaKind, Title,
    Validatable, Validator, ValidatorChain,
};
use utoipa_gen::rust_type::{PathArguments, TypeSegment, TypePath};
use utoipa_gen::type_tree::GenericType;

fn number(lit: &str) -> NumberValue {
    NumberValue { minus: false, lit: lit.to_string() }
}

fn kinds(features: &[Feature]) -> Vec<FeatureKind> {
    features.iter().map(|f| f.kind()).collect()
}

#[test]
fn feature_names_are_snake_case_or_explicit() {
    assert_eq!(Feature::MaxLength(MaxLength(number("1"))).get_name(), "max_length");
    assert_eq!(Feature::Inline(Inline(true)).get_name(), "inline");
    assert_eq!(Feature::Title(Title("t".to_string())).get_name(), "title");
    assert_eq!(Feature::IntoParamsNames(IntoParamsNames(vec![])).get_name(), "names");
    assert_eq!(FeatureKind::XmlAttr.explicit_name(), Some("xml"));
    assert_eq!(FeatureKind::AdditionalProperties.holder_name(), "AdditionalProperties");
}

#[test]
fn validatable_features() {
    assert!(Feature::Pattern(Pattern("^a".to_string())).is_validatable());
    assert!(Feature::Minimum(Minimum(number("0"))).is_validatable());
    assert!(!Feature::Inline(Inline(true)).is_validatable());
    assert!(FeatureKind::MinItems.is_validatable());
    assert!(!FeatureKind::Required.is_validatable());
}

#[test]
fn small_accessors() {
    assert!(Nullable::new().value());
    assert!(!Nullable(false).value());
    assert_eq!(Rename("x".to_string()).into_value(), "x");
    assert!(ParameterIn(ParameterInKind::Query).is_query());
    assert!(!ParameterIn(ParameterInKind::Path).is_query());
    assert_eq!(IntoParamsNames(vec!["a".to_string()]).into_values(), vec!["a".to_string()]);
    assert!(Required(true).is_true());
}

#[test]
fn as_path_is_written_with_dots() {
    let path = TypePath {
        segments: vec![
            TypeSegment { ident: "crate".to_string(), arguments: PathArguments::Empty },
            TypeSegment { ident: "models".to_string(), arguments: PathArguments::Empty },
            TypeSegment { ident: "Pet".to_string(), arguments: PathArguments::Empty },
        ],
    };
    assert_eq!(As(path).to_schema_formatted_string(), "crate.models.Pet");
}

#[test]
fn pop_by_takes_the_first_of_the_kind() {
    let mut features = vec![
        Feature::Inline(Inline(true)),
        Feature::Rename(Rename("a".to_string())),
        Feature::Title(Title("t".to_string())),
        Feature::Rename(Rename("b".to_string())),
    ];
    let popped = pop_by(&mut features, FeatureKind::Rename);
    match popped {
        Some(Feature::Rename(r)) => assert_eq!(r.0, "a"),
        _ => panic!("expected the first rename"),
    }
    assert_eq!(kinds(&features), vec![FeatureKind::Inline, FeatureKind::Rename, FeatureKind::Title]);
    assert!(pop_by(&mut features, FeatureKind::Nullable).is_none());
    assert_eq!(features.len(), 3);
}

#[test]
fn is_inline_needs_a_true_inline() {
    assert!(vec![Feature::Title(Title("t".to_string())), Feature::Inline(Inline(true))].is_inline());
    assert!(!vec![Feature::Inline(Inline(false))].is_inline());
    assert!(!Vec::<Feature>::new().is_inline());
}

#[test]
fn merge_appends_features() {
    let a = NamedFieldStructFeatures(vec![Feature::Inline(Inline(true))]);
    let b = NamedFieldStructFeatures(vec![Feature::Title(Title("t".to_string()))]);
    let merged = a.merge(b).into_inner();
    assert_eq!(kinds(&merged), vec![FeatureKind::Inline, FeatureKind::Title]);
}

#[test]
fn schema_kinds() {
    assert_eq!(schema_kind("String"), SchemaKind::String);
    assert_eq!(schema_kind("bool"), SchemaKind::Boolean);
    assert_eq!(schema_kind("u16"), SchemaKind::Integer);
    assert_eq!(schema_kind("f64"), SchemaKind::Number);
    assert_eq!(schema_kind("Pet"), SchemaKind::Object);
}

#[test]
fn checks_and_chains() {
    assert_eq!(Check::IsNumber(SchemaKind::Integer).is_valid(), Ok(()));
    assert_eq!(
        Check::IsString(SchemaKind::Number).is_valid(),
        Err("can only be used with `string` type")
    );
    assert_eq!(
        Check::IsVec(Some(GenericType::Option)).is_valid(),
        Err("can only be used with `Vec`, `array` or `slice` types")
    );
    assert_eq!(Check::AboveZeroUsize(number("0")).is_valid(), Err("can only be above zero value"));
    assert_eq!(Check::AboveZeroUsize(number("+7")).is_valid(), Ok(()));
    assert_eq!(
        Check::AboveZeroUsize(NumberValue { minus: true, lit: "1".to_string() }).is_valid(),
        Err("invalid type, expected `usize`")
    );
    assert_eq!(Check::AboveZeroF64(None).is_valid(), Err("invalid type, expected `f64`"));
    let chain = ValidatorChain::new(Check::IsString(SchemaKind::String))
        .next(Check::AboveZeroUsize(number("x")));
    assert_eq!(chain.is_valid(), Err("invalid type, expected `usize`"));
    let chain = ValidatorChain::new(Check::IsInteger(SchemaKind::Number))
        .next(Check::AboveZeroUsize(number("x")));
    assert_eq!(chain.is_valid(), Err("can only be used with `integer` type"));
}

#[test]
fn validate_reports_feature_errors_with_help() {
    let max_length = Feature::MaxLength(MaxLength(number("0")));
    let diagnostics = max_length.validate(SchemaKind::String, None, None).unwrap();
    assert_eq!(
        diagnostics.rendered_messages()[0],
        "`max_length` error: can only be above zero value\n\nhelp = See more details: `http://json-schema.org/draft/2020-12/json-schema-validation.html#name-maxlength`"
    );

    assert!(Feature::MaxLength(MaxLength(number("3"))).validate(SchemaKind::String, None, None).is_none());

    let multiple_of = Feature::MultipleOf(MultipleOf(number("2.5")));
    assert!(multiple_of.validate(SchemaKind::Number, None, Some(true)).is_none());
    let diagnostics = multiple_of.validate(SchemaKind::String, None, Some(true)).unwrap();
    assert_eq!(diagnostics.message(), "`multiple_of` error: can only be used with `number` type");

    let max_items = Feature::MaxItems(MaxItems(number("2")));
    assert!(max_items.validate(SchemaKind::Object, Some(GenericType::Vec), None).is_none());
    let diagnostics = max_items.validate(SchemaKind::Object, None, None).unwrap();
    assert_eq!(
        diagnostics.message(),
        "`max_items` error: can only be used with `Vec`, `array` or `slice` types"
    );
}
