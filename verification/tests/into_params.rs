use utoipa_gen::features::{
    AllowReserved, Description, Feature, FeatureKind, Format, Inline, Nullable, ParameterStyle,
    ParameterInKind, Pattern, Rename, RenameAll, Required, SchemaWith, Style,
};
use utoipa_gen::into_params::{
    get_struct_fields, into_params_params, param_layout, resolve_field_features,
    validate_unnamed_field_names, DataShape, FieldsKind, ParamField,
};
use utoipa_gen::rename::RenameRule;
use utoipa_gen::rust_type::{PathArguments, TypeSegment, TypePath};
use utoipa_gen::serde_attr::{SerdeContainer, SerdeValue};

#[test]
fn unnamed_fields_with_as_many_names_are_valid() {
    let names = vec!["id".to_string(), "name".to_string()];
    assert!(validate_unnamed_field_names("Foo", 2, Some(&names)).is_none());
}

#[test]
fn unnamed_fields_with_too_few_names_report_both_amounts() {
    let names = vec!["id".to_string()];
    let d = validate_unnamed_field_names("Foo", 2, Some(&names)).expect("an error");
    assert_eq!(
        d.rendered_messages(),
        vec![
            "declared names amount '1' does not match to the unnamed fields amount '2' in type: Foo\n\n\
help = Did you forget to add a field name to `#[into_params(names(... , \"field_name\"))]`\n\
help = Or have you added extra name but haven't defined a type?"
                .to_string()
        ]
    );
}

#[test]
fn unnamed_fields_with_too_many_names_report_both_amounts() {
    let names = vec!["a".to_string(), "b".to_string(), "c".to_string()];
    let d = validate_unnamed_field_names("Bar", 12, Some(&names)).expect("an error");
    assert_eq!(
        d.message(),
        "declared names amount '3' does not match to the unnamed fields amount '12' in type: Bar"
    );
}

#[test]
fn unnamed_fields_without_names_ask_for_them() {
    let d = validate_unnamed_field_names("Foo", 1, None).expect("an error");
    assert_eq!(
        d.rendered_messages(),
        vec![
            "struct with unnamed fields must have explicit name declarations.\n\n\
help = Try defining `#[into_params(names(...))]` over your type: Foo"
                .to_string()
        ]
    );
}

#[test]
fn named_struct_gives_its_named_fields() {
    assert!(matches!(get_struct_fields("Foo", DataShape::Named(3), None), Ok(FieldsKind::Named)));
}

#[test]
fn named_struct_refuses_declared_names() {
    let names = vec!["a".to_string()];
    let d = get_struct_fields("Foo", DataShape::Named(1), Some(&names)).err().expect("an error");
    assert_eq!(
        d.message(),
        "`#[into_params(names(...))]` is not supported attribute on a struct with named fields"
    );
}

#[test]
fn unnamed_struct_with_names_gives_its_unnamed_fields() {
    let names = vec!["a".to_string()];
    assert!(matches!(
        get_struct_fields("Foo", DataShape::Unnamed(1), Some(&names)),
        Ok(FieldsKind::Unnamed)
    ));
}

#[test]
fn unnamed_struct_with_wrong_names_is_an_error() {
    let d = get_struct_fields("Foo", DataShape::Unnamed(2), None).err().expect("an error");
    assert_eq!(d.message(), "struct with unnamed fields must have explicit name declarations.");
}

#[test]
fn unit_struct_and_enum_are_refused() {
    let d = get_struct_fields("Foo", DataShape::Unit, None).err().expect("an error");
    assert_eq!(d.message(), "Unit type struct is not supported");
    let d = get_struct_fields("Foo", DataShape::NotStruct, None).err().expect("an error");
    assert_eq!(d.message(), "Only struct type is supported");
}

fn kinds(fs: &[Feature]) -> Vec<FeatureKind> {
    fs.iter().map(|f| f.kind()).collect()
}

#[test]
fn field_features_split_between_schema_and_parameter() {
    let features = vec![
        Feature::Rename(Rename("id".to_string())),
        Feature::Inline(Inline(true)),
        Feature::Description(Description("the id".to_string())),
        Feature::Format(Format("int64".to_string())),
        Feature::Pattern(Pattern("[0-9]+".to_string())),
        Feature::AllowReserved(AllowReserved(true)),
        Feature::Nullable(Nullable(true)),
    ];
    let (schema, param) = resolve_field_features(features, None);
    assert_eq!(
        kinds(&schema),
        vec![FeatureKind::Inline, FeatureKind::Format, FeatureKind::Pattern, FeatureKind::Nullable]
    );
    assert_eq!(
        kinds(&param),
        vec![FeatureKind::Rename, FeatureKind::Description, FeatureKind::AllowReserved]
    );
}

#[test]
fn container_style_is_added_to_the_parameter_features() {
    let (schema, param) =
        resolve_field_features(vec![Feature::Inline(Inline(false))], Some(ParameterStyle::Form));
    assert_eq!(kinds(&schema), vec![FeatureKind::Inline]);
    assert_eq!(kinds(&param), vec![FeatureKind::Style]);
    assert!(matches!(&param[0], Feature::Style(Style(ParameterStyle::Form))));
}

#[test]
fn field_style_wins_over_container_style() {
    let (_, param) = resolve_field_features(
        vec![Feature::Style(Style(ParameterStyle::Simple))],
        Some(ParameterStyle::Form),
    );
    assert_eq!(param.len(), 1);
    assert!(matches!(&param[0], Feature::Style(Style(ParameterStyle::Simple))));
}

fn serde_rules() -> SerdeValue {
    SerdeValue {
        skip: false,
        rename: None,
        default: false,
        flatten: false,
        skip_serializing_if: false,
        double_option: false,
    }
}

fn serde_container() -> SerdeContainer {
    SerdeContainer { rename_all: None, tag: String::new(), content: String::new(), untagged: false, default: false }
}

fn param_field(ident: Option<&str>, features: Vec<Feature>) -> ParamField {
    ParamField {
        ident: ident.map(|i| i.to_string()),
        rules: serde_rules(),
        features,
        is_option: false,
    }
}

#[test]
fn param_of_a_named_field() {
    let field = param_field(
        Some("r#type"),
        vec![Feature::Inline(Inline(true)), Feature::Description(Description("d".to_string()))],
    );
    let p = param_layout(field, None, None, None, &serde_container(), None).ok().unwrap();
    assert_eq!(p.name, "type");
    assert_eq!(p.required, Some(true));
    assert_eq!(kinds(&p.schema_features), vec![FeatureKind::Inline]);
    assert_eq!(kinds(&p.param_features), vec![FeatureKind::Description]);
    assert!(p.ignore.is_none() && p.schema_with.is_none() && p.value_type.is_none());
    assert!(p.option_is_nullable);
}

#[test]
fn param_is_renamed_and_optional() {
    let mut field = param_field(Some("user_id"), vec![Feature::Rename(Rename("uid".to_string()))]);
    field.is_option = true;
    let p = param_layout(field, None, None, None, &serde_container(), None).ok().unwrap();
    assert_eq!(p.name, "uid");
    assert_eq!(p.required, Some(false));
    assert!(p.param_features.is_empty());

    let field = param_field(Some("user_id"), vec![]);
    let rename_all = RenameAll(RenameRule::Camel);
    let p = param_layout(field, None, None, None, &serde_container(), Some(&rename_all)).ok().unwrap();
    assert_eq!(p.name, "userId");
}

#[test]
fn param_required_feature_wins() {
    let mut field = param_field(Some("q"), vec![Feature::Required(Required(true))]);
    field.is_option = true;
    let p = param_layout(field, None, None, None, &serde_container(), None).ok().unwrap();
    assert_eq!(p.required, Some(true));
}

#[test]
fn param_with_schema_with_has_no_required() {
    let with = TypePath {
        segments: vec![TypeSegment { ident: "custom".to_string(), arguments: PathArguments::Empty }],
    };
    let field = param_field(
        Some("q"),
        vec![Feature::SchemaWith(SchemaWith(with)), Feature::Required(Required(true))],
    );
    let p = param_layout(field, None, None, None, &serde_container(), None).ok().unwrap();
    assert!(p.schema_with.is_some());
    assert_eq!(p.required, None);
    assert_eq!(kinds(&p.param_features), vec![FeatureKind::Required]);
}

#[test]
fn unnamed_param_without_name_is_an_error() {
    let d = param_layout(param_field(None, vec![]), None, None, None, &serde_container(), None).err().unwrap();
    assert_eq!(
        d.rendered_messages(),
        vec!["No name specified for unnamed field.\n\nhelp = Try adding #[into_params(names(...))] container attribute to specify the name for this field".to_string()]
    );
    let name = "id".to_string();
    let p = param_layout(param_field(None, vec![]), Some(&name), None, None, &serde_container(), None).ok().unwrap();
    assert_eq!(p.name, "id");
}

#[test]
fn into_params_of_a_tuple_struct() {
    let names = vec!["id".to_string(), "skipped".to_string(), "name".to_string()];
    let mut skipped = param_field(None, vec![]);
    skipped.rules.skip = true;
    let fields = vec![param_field(None, vec![]), skipped, param_field(None, vec![])];
    let params = into_params_params(
        "Foo",
        false,
        DataShape::Unnamed(3),
        fields,
        Some(&names),
        Some(ParameterStyle::Form),
        Some(ParameterInKind::Query),
        &serde_container(),
        None,
    )
    .ok()
    .unwrap();
    assert_eq!(params.iter().map(|p| p.name.clone()).collect::<Vec<_>>(), vec!["id", "name"]);
    assert_eq!(kinds(&params[0].param_features), vec![FeatureKind::Style]);
    assert!(!params[0].option_is_nullable);
}

#[test]
fn into_params_refuses_param_attribute() {
    let d = into_params_params("Foo", true, DataShape::Named(0), vec![], None, None, None, &serde_container(), None)
        .err()
        .unwrap();
    assert_eq!(
        d.rendered_messages(),
        vec!["found `param` attribute in unsupported context\n\nhelp = Did you mean `into_params`?".to_string()]
    );
}

#[test]
fn into_params_refuses_unit_struct() {
    let d = into_params_params("Foo", false, DataShape::Unit, vec![], None, None, None, &serde_container(), None)
        .err()
        .unwrap();
    assert_eq!(d.message(), "Unit type struct is not supported");
}
