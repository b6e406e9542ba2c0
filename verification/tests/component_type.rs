use utoipa_gen::component_type::{
    is_known_format, is_primitive_chrono, is_primitive_rust_decimal, ComponentFormat,
    ComponentType, DataType, SchemaType, TypeFeatures, TypeFormat, Variant,
};
use utoipa_gen::rust_type::{PathArguments, TypeSegment, TypePath};

fn path(name: &str) -> TypePath {
    TypePath {
        segments: vec![
            TypeSegment { ident: "module".to_string(), arguments: PathArguments::Empty },
            TypeSegment { ident: name.to_string(), arguments: PathArguments::Empty },
        ],
    }
}

fn none() -> TypeFeatures {
    TypeFeatures {
        chrono: false,
        chrono_with_format: false,
        decimal: false,
        rocket_extras: false,
        uuid: false,
        time: false,
    }
}

fn all() -> TypeFeatures {
    TypeFeatures {
        chrono: true,
        chrono_with_format: true,
        decimal: true,
        rocket_extras: true,
        uuid: true,
        time: true,
    }
}

#[test]
fn primitive_name_sets() {
    assert!(is_primitive_chrono("DateTime"));
    assert!(is_primitive_chrono("Duration"));
    assert!(!is_primitive_chrono("Instant"));
    assert!(is_primitive_rust_decimal("Decimal"));
    assert!(!is_primitive_rust_decimal("decimal"));
    assert!(is_known_format("u64"));
    assert!(!is_known_format("u128"));
    assert!(!is_known_format("String"));
}

#[test]
fn component_type_primitives_follow_the_integrations() {
    let p = path("i64");
    assert!(ComponentType(&p).is_primitive(none()));
    let d = path("DateTime");
    assert!(!ComponentType(&d).is_primitive(none()));
    assert!(ComponentType(&d).is_primitive(all()));
    let u = path("Uuid");
    assert!(ComponentType(&u).is_primitive(all()));
    let t = path("OffsetDateTime");
    assert!(!ComponentType(&t).is_primitive(all()));
    assert!(SchemaType(&t).is_primitive(all()));
    assert!(!SchemaType(&t).is_primitive(none()));
    let empty = TypePath { segments: vec![] };
    assert!(!ComponentType(&empty).is_primitive(all()));
    assert!(!TypeFormat(&empty).is_known_format(all()));
}

#[test]
fn component_data_types() {
    let cases = [
        ("String", DataType::String),
        ("char", DataType::String),
        ("bool", DataType::Boolean),
        ("usize", DataType::Integer),
        ("i128", DataType::Integer),
        ("f32", DataType::Number),
        ("Decimal", DataType::Object),
        ("Pet", DataType::Object),
    ];
    for (name, expected) in cases {
        let p = path(name);
        assert_eq!(ComponentType(&p).data_type(none()), expected, "{name}");
    }
    let p = path("Decimal");
    assert_eq!(ComponentType(&p).data_type(all()), DataType::String);
}

#[test]
fn type_formats() {
    let cases = [
        ("u8", Some(Variant::Int32)),
        ("i32", Some(Variant::Int32)),
        ("u64", Some(Variant::Int64)),
        ("f64", Some(Variant::Float)),
        ("String", None),
        ("DateTime", None),
    ];
    for (name, expected) in cases {
        let p = path(name);
        assert_eq!(TypeFormat(&p).format(none()), expected, "{name}");
    }
    let p = path("DateTime");
    assert_eq!(TypeFormat(&p).format(all()), Some(Variant::DateTime));
    assert!(TypeFormat(&p).is_known_format(all()));
    assert!(!TypeFormat(&p).is_known_format(none()));
    assert!(ComponentFormat::Variant(Variant::Password).is_known_format(none()));
    assert!(!ComponentFormat::Type(TypeFormat(&p)).is_known_format(none()));
}

#[test]
fn variant_parse() {
    assert_eq!(Variant::parse("Int64", false), Ok(Variant::Int64));
    assert_eq!(Variant::parse("Password", false), Ok(Variant::Password));
    assert_eq!(Variant::parse("Uuid", true), Ok(Variant::Uuid));
    assert_eq!(
        Variant::parse("Uuid", false),
        Err("unexpected format: Uuid, expected one of: unexpected format, expected one of: Int32, Int64, Float, Double, Byte, Binary, Date, DateTime, Password".to_string())
    );
    assert_eq!(
        Variant::parse("int32", true),
        Err("unexpected format: int32, expected one of: unexpected format, expected one of: Int32, Int64, Float, Double, Byte, Binary, Date, DateTime, Password, Uuid".to_string())
    );
}
