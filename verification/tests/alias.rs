use utoipa_gen::alias::{resolve_alias, rust_type_reads, schema_is_option};
use utoipa_gen::rust_type::first_trait_bound;
use utoipa_gen::config::Config;
use utoipa_gen::features::{Feature, Rename, Required};
use utoipa_gen::named_struct::{named_field, named_field_options, named_struct_layout, NamedField, PropertyKind};
use utoipa_gen::rust_type::{PathArguments, RustType, TypePath, TypeSegment};
use utoipa_gen::serde_attr::{SerdeContainer, SerdeValue};
use utoipa_gen::type_tree::{from_type, GenericType, TypeTree, ValueType};

fn path(name: &str) -> TypePath {
    TypePath { segments: vec![TypeSegment { ident: name.to_string(), arguments: PathArguments::Empty }] }
}

fn tree(name: &str) -> TypeTree {
    from_type(&RustType::Path(path(name))).ok().unwrap()
}

fn last_ident(tree: &TypeTree) -> String {
    tree.path.as_ref().unwrap().segments.last().unwrap().ident.clone()
}

#[test]
fn no_alias_resolves_to_none() {
    let resolved = resolve_alias(&tree("MyType"), &Config::new()).unwrap().ok().unwrap();
    assert!(resolved.is_none());
}

#[test]
fn alias_resolves_to_the_tree_of_its_type() {
    let config = Config::new().alias_for("MyType", "Option<u64>");
    let resolved = resolve_alias(&tree("MyType"), &config).unwrap().ok().unwrap().unwrap();
    assert_eq!(resolved.generic_type, Some(GenericType::Option));
    assert_eq!(last_ident(&resolved), "Option");
    let children = resolved.children.as_ref().unwrap();
    assert_eq!(children.len(), 1);
    assert_eq!(children[0].value_type, ValueType::Primitive);
    assert_eq!(last_ident(&children[0]), "u64");
}

#[test]
fn alias_with_a_path_resolves_by_last_segment() {
    let config = Config::new().alias_for("Id", "std::string::String");
    let ty = RustType::Path(TypePath {
        segments: vec![
            TypeSegment { ident: "crate".to_string(), arguments: PathArguments::Empty },
            TypeSegment { ident: "Id".to_string(), arguments: PathArguments::Empty },
        ],
    });
    let resolved = resolve_alias(&from_type(&ty).ok().unwrap(), &config).unwrap().ok().unwrap().unwrap();
    assert_eq!(resolved.value_type, ValueType::Primitive);
    assert_eq!(resolved.path.as_ref().unwrap().segments.len(), 3);
    assert_eq!(last_ident(&resolved), "String");
}

#[test]
fn alias_that_does_not_parse_is_an_error() {
    let config = Config::new().alias_for("MyType", "Vec<");
    let error = resolve_alias(&tree("MyType"), &config).unwrap().err().unwrap();
    assert!(!error.message().is_empty());
}

#[test]
fn alias_of_an_unread_type_is_an_error() {
    let config = Config::new().alias_for("MyType", "fn() -> u8");
    let error = resolve_alias(&tree("MyType"), &config).unwrap().err().unwrap();
    assert_eq!(
        error.message(),
        "unexpected type in component part get type path, expected one of: Path, Tuple, Reference, Group, Array, Slice, TraitObject"
    );
}

#[test]
fn aliased_option_makes_a_field_optional() {
    let config = Config::new().alias_for("MaybeId", "Option<i64>");
    let own = tree("MaybeId");
    let alias = resolve_alias(&own, &config).unwrap().ok().unwrap();
    let is_option = schema_is_option(&own, &alias);
    assert!(is_option);
    assert!(!schema_is_option(&own, &None));

    let field = NamedField {
        name: "id".to_string(),
        rules: SerdeValue {
            skip: false,
            rename: None,
            default: false,
            flatten: false,
            skip_serializing_if: false,
            double_option: false,
        },
        renamed_field: None,
        required: None,
        is_option,
        property: PropertyKind::Schema,
    };
    let container = SerdeContainer {
        rename_all: None,
        tag: String::new(),
        content: String::new(),
        untagged: false,
        default: false,
    };
    let layout = named_struct_layout("Foo", &vec![field], &container, None, false).ok().unwrap();
    assert_eq!(layout.properties.len(), 1);
    assert!(!layout.properties[0].required);
}

#[test]
fn types_without_a_missing_node_read() {
    assert!(rust_type_reads(&RustType::Path(path("u8"))));
    assert!(!rust_type_reads(&RustType::Path(TypePath { segments: vec![] })));
    assert!(!rust_type_reads(&RustType::TraitObject(vec![])));
    assert!(!rust_type_reads(&RustType::TraitObject(vec![None])));
    assert!(rust_type_reads(&RustType::TraitObject(vec![None, Some(path("Draw"))])));
    assert!(rust_type_reads(&RustType::Tuple(vec![RustType::Path(path("u8")), RustType::Other])));
}

#[test]
fn first_trait_bound_skips_other_bounds() {
    assert_eq!(first_trait_bound(&vec![None, Some(path("A")), Some(path("B"))]), Some(1));
    assert_eq!(first_trait_bound(&vec![None, None]), None);
}

#[test]
fn trait_object_alias_reads_its_first_trait_bound() {
    let config = Config::new().alias_for("Shape", "Box<dyn 'static + Draw + Send>");
    let resolved = resolve_alias(&tree("Shape"), &config).unwrap().ok().unwrap().unwrap();
    assert_eq!(resolved.generic_type, Some(GenericType::Box));
    let children = resolved.children.as_ref().unwrap();
    assert_eq!(last_ident(&children[0]), "Draw");
}

fn plain_rules() -> SerdeValue {
    SerdeValue {
        skip: false,
        rename: None,
        default: false,
        flatten: false,
        skip_serializing_if: false,
        double_option: false,
    }
}

#[test]
fn named_field_takes_its_kind_from_the_aliased_type() {
    let config = Config::new().alias_for("Prices", "HashMap<String, u64>");
    let own = tree("Prices");
    let alias = resolve_alias(&own, &config).unwrap().ok().unwrap();
    let options = named_field_options(
        vec![
            Feature::Rename(Rename("costs".to_string())),
            Feature::Required(Required(true)),
        ],
        &vec![],
        false,
        "Shop",
        "prices",
        false,
    );
    let mut rules = plain_rules();
    rules.flatten = true;
    let field = named_field("prices".to_string(), rules, &options, &own, &alias);
    assert_eq!(field.property, PropertyKind::FlattenedMap);
    assert!(!field.is_option);
    assert_eq!(field.renamed_field, Some("costs".to_string()));
    assert_eq!(field.required, Some(true));

    let unaliased = named_field("prices".to_string(), rules_flattened(), &options, &own, &None);
    assert_eq!(unaliased.property, PropertyKind::Schema);
}

fn rules_flattened() -> SerdeValue {
    let mut rules = plain_rules();
    rules.flatten = true;
    rules
}

#[test]
fn schema_with_gives_the_property() {
    let options = named_field_options(
        vec![Feature::SchemaWith(utoipa_gen::features::SchemaWith(path("custom")))],
        &vec![],
        false,
        "Shop",
        "id",
        false,
    );
    let field = named_field("id".to_string(), plain_rules(), &options, &tree("u64"), &None);
    assert_eq!(field.property, PropertyKind::SchemaWith);
}

#[test]
fn value_type_gives_its_type_tree() {
    let value_type = utoipa_gen::features::ValueType(RustType::Path(path("String")));
    let tree = value_type.as_type_tree().ok().unwrap();
    assert_eq!(tree.value_type, ValueType::Primitive);
    assert_eq!(last_ident(&tree), "String");
}

#[test]
fn param_field_is_optional_through_its_alias() {
    let config = Config::new().alias_for("MaybeId", "Option<i64>");
    let own = tree("MaybeId");
    let alias = resolve_alias(&own, &config).unwrap().ok().unwrap();
    let field = utoipa_gen::into_params::param_field(
        Some("id".to_string()),
        plain_rules(),
        vec![],
        &own,
        &alias,
    );
    assert!(field.is_option);
    let plain = utoipa_gen::into_params::param_field(None, plain_rules(), vec![], &own, &None);
    assert!(!plain.is_option);
}
