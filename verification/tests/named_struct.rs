use utoipa_gen::features::{
    AnyValue, Deprecated, Feature, FeatureKind, Inline, NoRecursion, Rename, RenameAll, Required,
};
use utoipa_gen::named_struct::{named_field_options, named_struct_layout, NamedField, PropertyKind};
use utoipa_gen::rename::RenameRule;
use utoipa_gen::serde_attr::{SerdeContainer, SerdeValue};

fn rules() -> SerdeValue {
    SerdeValue {
        skip: false,
        rename: None,
        default: false,
        flatten: false,
        skip_serializing_if: false,
        double_option: false,
    }
}

fn field(name: &str) -> NamedField {
    NamedField {
        name: name.to_string(),
        rules: rules(),
        renamed_field: None,
        required: None,
        is_option: false,
        property: PropertyKind::Schema,
    }
}

fn container() -> SerdeContainer {
    SerdeContainer { rename_all: None, tag: String::new(), content: String::new(), untagged: false, default: false }
}

fn props(l: &utoipa_gen::named_struct::NamedStructLayout) -> Vec<(String, bool, usize)> {
    l.properties.iter().map(|p| (p.name.clone(), p.required, p.field)).collect()
}

#[test]
fn plain_fields_are_required_properties() {
    let fields = vec![field("id"), field("r#type")];
    let l = named_struct_layout("Foo", &fields, &container(), None, false).ok().unwrap();
    assert_eq!(
        props(&l),
        vec![("id".to_string(), true, 0), ("type".to_string(), true, 1)]
    );
    assert!(!l.all_of);
    assert!(l.flattened_items.is_empty());
    assert!(l.flattened_map.is_none());
    assert!(!l.deny_unknown_fields);
}

#[test]
fn optional_skipped_and_renamed_fields() {
    let mut opt = field("maybe");
    opt.is_option = true;
    let mut skipped = field("secret");
    skipped.rules.skip = true;
    let mut renamed = field("user_name");
    renamed.renamed_field = Some("login".to_string());
    let mut serde_renamed = field("other_name");
    serde_renamed.rules.rename = Some("other".to_string());
    serde_renamed.renamed_field = Some("ignored".to_string());
    let mut forced = field("forced");
    forced.is_option = true;
    forced.required = Some(true);
    let mut defaulted = field("with_default");
    defaulted.rules.default = true;
    let fields = vec![opt, skipped, renamed, serde_renamed, forced, defaulted];
    let l = named_struct_layout("Foo", &fields, &container(), None, true).ok().unwrap();
    assert_eq!(
        props(&l),
        vec![
            ("maybe".to_string(), false, 0),
            ("login".to_string(), true, 2),
            ("other".to_string(), true, 3),
            ("forced".to_string(), true, 4),
            ("with_default".to_string(), false, 5),
        ]
    );
    assert!(l.deny_unknown_fields);
}

#[test]
fn rename_all_applies_to_unrenamed_fields() {
    let fields = vec![field("first_name"), field("last_name")];
    let rename_all = RenameAll(RenameRule::Camel);
    let l = named_struct_layout("Foo", &fields, &container(), Some(&rename_all), false).ok().unwrap();
    assert_eq!(
        props(&l),
        vec![("firstName".to_string(), true, 0), ("lastName".to_string(), true, 1)]
    );
    let serde_rule = SerdeContainer { rename_all: Some(RenameRule::ScreamingSnake), tag: String::new(), content: String::new(), untagged: false, default: false };
    let l = named_struct_layout("Foo", &fields, &serde_rule, Some(&rename_all), false).ok().unwrap();
    assert_eq!(props(&l)[0].0, "FIRST_NAME");
}

#[test]
fn flattened_fields_make_an_all_of() {
    let mut flat = field("base");
    flat.rules.flatten = true;
    let mut map = field("extra");
    map.rules.flatten = true;
    map.property = PropertyKind::FlattenedMap;
    let fields = vec![field("id"), flat, map];
    let l = named_struct_layout("Foo", &fields, &container(), None, true).ok().unwrap();
    assert_eq!(props(&l), vec![("id".to_string(), true, 0)]);
    assert_eq!(l.flattened_items, vec![1]);
    assert_eq!(l.flattened_map, Some(2));
    assert!(l.all_of);
    assert!(!l.deny_unknown_fields);
}

#[test]
fn flattened_map_alone_is_no_all_of() {
    let mut map = field("extra");
    map.rules.flatten = true;
    map.property = PropertyKind::FlattenedMap;
    let fields = vec![field("id"), map];
    let l = named_struct_layout("Foo", &fields, &container(), None, false).ok().unwrap();
    assert!(!l.all_of);
    assert_eq!(l.flattened_map, Some(1));
}

#[test]
fn two_flattened_maps_are_an_error() {
    let mut a = field("first_map");
    a.rules.flatten = true;
    a.property = PropertyKind::FlattenedMap;
    let mut b = field("second_map");
    b.rules.flatten = true;
    b.property = PropertyKind::FlattenedMap;
    let fields = vec![a, field("id"), b];
    let d = named_struct_layout("Foo", &fields, &container(), None, false).err().unwrap();
    assert_eq!(
        d.rendered_messages(),
        vec!["The structure `Foo` contains multiple flattened map fields.\n\n\
note = first flattened map field was declared here as `first_map`\n\
note = second flattened map field was declared here as `second_map`"
            .to_string()]
    );
}

fn kinds(fs: &[Feature]) -> Vec<FeatureKind> {
    fs.iter().map(|f| f.kind()).collect()
}

#[test]
fn field_options_are_taken_out() {
    let features = vec![
        Feature::Rename(Rename("login".to_string())),
        Feature::Inline(Inline(true)),
        Feature::Required(Required(false)),
    ];
    let o = named_field_options(features, &vec![], false, "Foo", "user", false);
    assert_eq!(o.rename, Some("login".to_string()));
    assert_eq!(o.required, Some(false));
    assert!(o.value_type.is_none() && o.schema_with.is_none() && o.ignore.is_none());
    assert_eq!(kinds(&o.features), vec![FeatureKind::Inline]);
}

#[test]
fn field_gets_container_defaults_and_deprecation() {
    let container = vec![
        Feature::NoRecursion(NoRecursion),
        Feature::Default(utoipa_gen::features::Default(None)),
    ];
    let o = named_field_options(vec![], &container, false, "Foo", "count", true);
    assert_eq!(
        kinds(&o.features),
        vec![FeatureKind::NoRecursion, FeatureKind::Default, FeatureKind::Deprecated]
    );
    match &o.features[1] {
        Feature::Default(utoipa_gen::features::Default(Some(AnyValue::DefaultTrait { struct_ident, field }))) => {
            assert_eq!(struct_ident, "Foo");
            assert_eq!(field, "count");
        }
        _ => panic!("expected the Default trait's value"),
    }
    assert!(matches!(&o.features[2], Feature::Deprecated(Deprecated(true))));
}

#[test]
fn field_keeps_its_own_default_and_deprecation() {
    let own = vec![
        Feature::Default(utoipa_gen::features::Default(Some(AnyValue::Text("1".to_string())))),
        Feature::Deprecated(Deprecated(false)),
    ];
    let o = named_field_options(own, &vec![], true, "Foo", "count", true);
    assert_eq!(kinds(&o.features), vec![FeatureKind::Default, FeatureKind::Deprecated]);
    assert!(matches!(&o.features[1], Feature::Deprecated(Deprecated(false))));
}
