//! The OpenAPI data type and format of a Rust type, read from the last
//! segment of its path, and the format names of schema attributes.
use vstd::prelude::*;

use crate::rust_type::TypePath;
use crate::text::{chars_of, extend_chars, str_eq, string_from_chars};
use crate::type_tree::{is_primitive, is_primitive_name};

verus! {

/// The optional integrations that widen the set of known types.
#[derive(Clone, Copy, Debug, PartialEq, Eq, Structural)]
pub struct TypeFeatures {
    pub chrono: bool,
    pub chrono_with_format: bool,
    pub decimal: bool,
    pub rocket_extras: bool,
    pub uuid: bool,
    pub time: bool,
}

/// The `chrono` types read as primitives.
pub open spec fn is_chrono_name(name: Seq<char>) -> bool {
    name == "DateTime"@ || name == "Date"@ || name == "Duration"@
}

/// The `time` types read as primitives.
pub open spec fn is_time_name(name: Seq<char>) -> bool {
    name == "Date"@ || name == "PrimitiveDateTime"@ || name == "OffsetDateTime"@ || name
        == "Duration"@
}

/// The integer type names.
pub open spec fn is_integer_name(name: Seq<char>) -> bool {
    ||| name == "i8"@
    ||| name == "i16"@
    ||| name == "i32"@
    ||| name == "i64"@
    ||| name == "i128"@
    ||| name == "isize"@
    ||| name == "u8"@
    ||| name == "u16"@
    ||| name == "u32"@
    ||| name == "u64"@
    ||| name == "u128"@
    ||| name == "usize"@
}

/// The names whose format is known without any integration.
pub open spec fn is_known_format_name(name: Seq<char>) -> bool {
    ||| name == "i8"@
    ||| name == "i16"@
    ||| name == "i32"@
    ||| name == "u8"@
    ||| name == "u16"@
    ||| name == "u32"@
    ||| name == "i64"@
    ||| name == "u64"@
    ||| name == "f32"@
    ||| name == "f64"@
}

/// Whether the name is a `chrono` type read as a primitive.
pub fn is_primitive_chrono(name: &str) -> (res: bool)
    ensures
        res == is_chrono_name(name@),
{
    str_eq(name, "DateTime") || str_eq(name, "Date") || str_eq(name, "Duration")
}

/// Whether the name is the `rust_decimal` type read as a primitive.
pub fn is_primitive_rust_decimal(name: &str) -> (res: bool)
    ensures
        res == (name@ == "Decimal"@),
{
    str_eq(name, "Decimal")
}

/// Whether the format of the type name is known without any integration.
pub fn is_known_format(name: &str) -> (res: bool)
    ensures
        res == is_known_format_name(name@),
{
    str_eq(name, "i8") || str_eq(name, "i16") || str_eq(name, "i32") || str_eq(name, "u8")
        || str_eq(name, "u16") || str_eq(name, "u32") || str_eq(name, "i64") || str_eq(name, "u64")
        || str_eq(name, "f32") || str_eq(name, "f64")
}

/// The identifier of the last segment of a path, if it has segments.
pub open spec fn last_name(p: TypePath) -> Option<Seq<char>> {
    if p.segments@.len() == 0 {
        None
    } else {
        Some(p.segments@.last().ident@)
    }
}

/// Whether a type name is a primitive for the derive of a component, with
/// the given integrations.
pub open spec fn is_component_primitive(name: Seq<char>, f: TypeFeatures) -> bool {
    ||| is_primitive_name(name)
    ||| (f.chrono || f.chrono_with_format) && is_chrono_name(name)
    ||| f.decimal && name == "Decimal"@
    ||| f.rocket_extras && name == "PathBuf"@
    ||| f.uuid && name == "Uuid"@
}

/// Whether a type name is a primitive for a handler argument, with the given
/// integrations: as for a component, and the `time` types too.
pub open spec fn is_schema_primitive(name: Seq<char>, f: TypeFeatures) -> bool {
    is_component_primitive(name, f) || f.time && is_time_name(name)
}

/// The OpenAPI data types.
#[derive(Clone, Copy, Debug, PartialEq, Eq, Structural)]
pub enum DataType {
    String,
    Boolean,
    Integer,
    Number,
    Object,
}

/// The OpenAPI data type of a type name, with the given integrations.
pub open spec fn data_type_of(name: Seq<char>, f: TypeFeatures) -> DataType {
    if name == "String"@ || name == "str"@ || name == "char"@ {
        DataType::String
    } else if name == "bool"@ {
        DataType::Boolean
    } else if is_integer_name(name) {
        DataType::Integer
    } else if name == "f32"@ || name == "f64"@ {
        DataType::Number
    } else if (f.chrono || f.chrono_with_format) && is_chrono_name(name) {
        DataType::String
    } else if f.decimal && name == "Decimal"@ {
        DataType::String
    } else if f.rocket_extras && name == "PathBuf"@ {
        DataType::String
    } else if f.uuid && name == "Uuid"@ {
        DataType::String
    } else {
        DataType::Object
    }
}

fn component_primitive(name: &str, f: TypeFeatures) -> (res: bool)
    ensures
        res == is_component_primitive(name@, f),
{
    let mut primitive = is_primitive(name);
    if !primitive && (f.chrono || f.chrono_with_format) {
        primitive = is_primitive_chrono(name);
    }
    if !primitive && f.decimal {
        primitive = is_primitive_rust_decimal(name);
    }
    if !primitive && f.rocket_extras {
        primitive = str_eq(name, "PathBuf");
    }
    if !primitive && f.uuid {
        primitive = str_eq(name, "Uuid");
    }
    primitive
}

fn is_integer(name: &str) -> (res: bool)
    ensures
        res == is_integer_name(name@),
{
    str_eq(name, "i8") || str_eq(name, "i16") || str_eq(name, "i32") || str_eq(name, "i64")
        || str_eq(name, "i128") || str_eq(name, "isize") || str_eq(name, "u8") || str_eq(name, "u16")
        || str_eq(name, "u32") || str_eq(name, "u64") || str_eq(name, "u128") || str_eq(
        name,
        "usize",
    )
}

/// The OpenAPI data type of a Rust type, read from its path.
pub struct ComponentType<'a>(pub &'a TypePath);

impl<'a> ComponentType<'a> {
    /// Whether the type is known to be a primitive: its last segment names
    /// one. A path without segments is none.
    pub fn is_primitive(&self, features: TypeFeatures) -> (res: bool)
        ensures
            res == match last_name(*self.0) {
                Some(name) => is_component_primitive(name, features),
                None => false,
            },
    {
        let n = self.0.segments.len();
        if n == 0 {
            return false;
        }
        component_primitive(self.0.segments[n - 1].ident.as_str(), features)
    }

    /// The OpenAPI data type of the type, by the name of its last segment.
    pub fn data_type(&self, features: TypeFeatures) -> (res: DataType)
        requires
            self.0.segments@.len() > 0,
        ensures
            res == data_type_of(self.0.segments@.last().ident@, features),
    {
        let n = self.0.segments.len();
        let name = self.0.segments[n - 1].ident.as_str();
        if str_eq(name, "String") || str_eq(name, "str") || str_eq(name, "char") {
            DataType::String
        } else if str_eq(name, "bool") {
            DataType::Boolean
        } else if is_integer(name) {
            DataType::Integer
        } else if str_eq(name, "f32") || str_eq(name, "f64") {
            DataType::Number
        } else if (features.chrono || features.chrono_with_format) && is_primitive_chrono(name) {
            DataType::String
        } else if features.decimal && is_primitive_rust_decimal(name) {
            DataType::String
        } else if features.rocket_extras && str_eq(name, "PathBuf") {
            DataType::String
        } else if features.uuid && str_eq(name, "Uuid") {
            DataType::String
        } else {
            DataType::Object
        }
    }
}

/// The OpenAPI data type of a handler argument's type, read from its path.
pub struct SchemaType<'a>(pub &'a TypePath);

impl<'a> SchemaType<'a> {
    /// Whether the type is known to be a primitive: its last segment names
    /// one. A path without segments is none.
    pub fn is_primitive(&self, features: TypeFeatures) -> (res: bool)
        ensures
            res == match last_name(*self.0) {
                Some(name) => is_schema_primitive(name, features),
                None => false,
            },
    {
        let n = self.0.segments.len();
        if n == 0 {
            return false;
        }
        let name = self.0.segments[n - 1].ident.as_str();
        let mut primitive = component_primitive(name, features);
        if !primitive && features.time {
            primitive = str_eq(name, "Date") || str_eq(name, "PrimitiveDateTime") || str_eq(
                name,
                "OffsetDateTime",
            ) || str_eq(name, "Duration");
        }
        primitive
    }
}

/// The formats of `utoipa::openapi::schema::ComponentFormat`.
#[derive(Clone, Copy, Debug, PartialEq, Eq, Structural)]
pub enum Variant {
    Int32,
    Int64,
    Float,
    Double,
    Byte,
    Binary,
    Date,
    DateTime,
    Password,
    Uuid,
}

/// The format that a type name has, with the given integrations.
pub open spec fn format_of(name: Seq<char>, f: TypeFeatures) -> Option<Variant> {
    if name == "i8"@ || name == "i16"@ || name == "i32"@ || name == "u8"@ || name == "u16"@ || name
        == "u32"@ {
        Some(Variant::Int32)
    } else if name == "i64"@ || name == "u64"@ {
        Some(Variant::Int64)
    } else if name == "f32"@ || name == "f64"@ {
        Some(Variant::Float)
    } else if f.chrono_with_format && name == "DateTime"@ {
        Some(Variant::DateTime)
    } else if f.chrono_with_format && name == "Date"@ {
        Some(Variant::Date)
    } else if f.uuid && name == "Uuid"@ {
        Some(Variant::Uuid)
    } else {
        None
    }
}

/// Whether the format of a type name is known, with the given integrations.
pub open spec fn is_known_format_with(name: Seq<char>, f: TypeFeatures) -> bool {
    ||| is_known_format_name(name)
    ||| f.chrono_with_format && (name == "DateTime"@ || name == "Date"@)
    ||| f.uuid && name == "Uuid"@
}

/// The format of a Rust type, read from its path.
pub struct TypeFormat<'a>(pub &'a TypePath);

impl<'a> TypeFormat<'a> {
    /// Whether the type has a known format: its last segment names a type
    /// of a known format. A path without segments has none.
    pub fn is_known_format(&self, features: TypeFeatures) -> (res: bool)
        ensures
            res == match last_name(*self.0) {
                Some(name) => is_known_format_with(name, features),
                None => false,
            },
    {
        let n = self.0.segments.len();
        if n == 0 {
            return false;
        }
        let name = self.0.segments[n - 1].ident.as_str();
        let mut known = is_known_format(name);
        if !known && features.chrono_with_format {
            known = str_eq(name, "DateTime") || str_eq(name, "Date");
        }
        if !known && features.uuid {
            known = str_eq(name, "Uuid");
        }
        known
    }

    /// The format of the type, by the name of its last segment; none where
    /// the name has no format.
    pub fn format(&self, features: TypeFeatures) -> (res: Option<Variant>)
        requires
            self.0.segments@.len() > 0,
        ensures
            res == format_of(self.0.segments@.last().ident@, features),
    {
        let n = self.0.segments.len();
        let name = self.0.segments[n - 1].ident.as_str();
        if str_eq(name, "i8") || str_eq(name, "i16") || str_eq(name, "i32") || str_eq(name, "u8")
            || str_eq(name, "u16") || str_eq(name, "u32") {
            Some(Variant::Int32)
        } else if str_eq(name, "i64") || str_eq(name, "u64") {
            Some(Variant::Int64)
        } else if str_eq(name, "f32") || str_eq(name, "f64") {
            Some(Variant::Float)
        } else if features.chrono_with_format && str_eq(name, "DateTime") {
            Some(Variant::DateTime)
        } else if features.chrono_with_format && str_eq(name, "Date") {
            Some(Variant::Date)
        } else if features.uuid && str_eq(name, "Uuid") {
            Some(Variant::Uuid)
        } else {
            None
        }
    }
}

/// The format of a schema: a format named in an attribute, or the format
/// of a Rust type.
pub enum ComponentFormat<'c> {
    Variant(Variant),
    Type(TypeFormat<'c>),
}

impl<'c> ComponentFormat<'c> {
    /// A named format is always known; a type's format is known where its
    /// name has one.
    pub fn is_known_format(&self, features: TypeFeatures) -> (res: bool)
        ensures
            res == match self {
                ComponentFormat::Variant(_) => true,
                ComponentFormat::Type(t) => match last_name(*t.0) {
                    Some(name) => is_known_format_with(name, features),
                    None => false,
                },
            },
    {
        match self {
            ComponentFormat::Type(ty) => ty.is_known_format(features),
            ComponentFormat::Variant(_) => true,
        }
    }
}

/// The format of a name written in an attribute; `Uuid` only with the
/// `uuid` integration.
pub open spec fn variant_by_name(name: Seq<char>, uuid: bool) -> Option<Variant> {
    if name == "Int32"@ {
        Some(Variant::Int32)
    } else if name == "Int64"@ {
        Some(Variant::Int64)
    } else if name == "Float"@ {
        Some(Variant::Float)
    } else if name == "Double"@ {
        Some(Variant::Double)
    } else if name == "Byte"@ {
        Some(Variant::Byte)
    } else if name == "Binary"@ {
        Some(Variant::Binary)
    } else if name == "Date"@ {
        Some(Variant::Date)
    } else if name == "DateTime"@ {
        Some(Variant::DateTime)
    } else if name == "Password"@ {
        Some(Variant::Password)
    } else if uuid && name == "Uuid"@ {
        Some(Variant::Uuid)
    } else {
        None
    }
}

/// The message for a name that is no format.
pub open spec fn variant_error(name: Seq<char>, uuid: bool) -> Seq<char> {
    "unexpected format: "@ + name
        + ", expected one of: unexpected format, expected one of: Int32, Int64, Float, Double, Byte, Binary, Date, DateTime, Password"@
        + if uuid {
        ", Uuid"@
    } else {
        Seq::empty()
    }
}

impl Variant {
    /// Reads a format from its name, with the `uuid` integration or without.
    pub fn parse(name: &str, uuid: bool) -> (res: Result<Variant, String>)
        ensures
            match res {
                Ok(v) => variant_by_name(name@, uuid) == Some(v),
                Err(e) => variant_by_name(name@, uuid) is None && e@ == variant_error(name@, uuid),
            },
    {
        if str_eq(name, "Int32") {
            Ok(Variant::Int32)
        } else if str_eq(name, "Int64") {
            Ok(Variant::Int64)
        } else if str_eq(name, "Float") {
            Ok(Variant::Float)
        } else if str_eq(name, "Double") {
            Ok(Variant::Double)
        } else if str_eq(name, "Byte") {
            Ok(Variant::Byte)
        } else if str_eq(name, "Binary") {
            Ok(Variant::Binary)
        } else if str_eq(name, "Date") {
            Ok(Variant::Date)
        } else if str_eq(name, "DateTime") {
            Ok(Variant::DateTime)
        } else if str_eq(name, "Password") {
            Ok(Variant::Password)
        } else if uuid && str_eq(name, "Uuid") {
            Ok(Variant::Uuid)
        } else {
            let mut msg = chars_of("unexpected format: ");
            let n = chars_of(name);
            extend_chars(&mut msg, &n);
            let rest = chars_of(
                ", expected one of: unexpected format, expected one of: Int32, Int64, Float, Double, Byte, Binary, Date, DateTime, Password",
            );
            extend_chars(&mut msg, &rest);
            if uuid {
                let u = chars_of(", Uuid");
                extend_chars(&mut msg, &u);
            }
            proof {
                if !uuid {
                    assert(msg@ =~= msg@ + Seq::<char>::empty());
                }
            }
            Err(string_from_chars(&msg))
        }
    }
}

/// The characters of the type names that formats and data types read.
pub proof fn lemma_type_name_chars()
    ensures
        "i8"@.len() == 2,
        "i8"@[0] == 'i',
        "i8"@[1] == '8',
        "i16"@.len() == 3,
        "i16"@[0] == 'i',
        "i16"@[1] == '1',
        "i16"@[2] == '6',
        "i32"@.len() == 3,
        "i32"@[0] == 'i',
        "i32"@[1] == '3',
        "i32"@[2] == '2',
        "i64"@.len() == 3,
        "i64"@[0] == 'i',
        "i64"@[1] == '6',
        "i64"@[2] == '4',
        "i128"@.len() == 4,
        "i128"@[0] == 'i',
        "i128"@[1] == '1',
        "i128"@[2] == '2',
        "i128"@[3] == '8',
        "isize"@.len() == 5,
        "isize"@[0] == 'i',
        "isize"@[1] == 's',
        "isize"@[2] == 'i',
        "isize"@[3] == 'z',
        "isize"@[4] == 'e',
        "u8"@.len() == 2,
        "u8"@[0] == 'u',
        "u8"@[1] == '8',
        "u16"@.len() == 3,
        "u16"@[0] == 'u',
        "u16"@[1] == '1',
        "u16"@[2] == '6',
        "u32"@.len() == 3,
        "u32"@[0] == 'u',
        "u32"@[1] == '3',
        "u32"@[2] == '2',
        "u64"@.len() == 3,
        "u64"@[0] == 'u',
        "u64"@[1] == '6',
        "u64"@[2] == '4',
        "u128"@.len() == 4,
        "u128"@[0] == 'u',
        "u128"@[1] == '1',
        "u128"@[2] == '2',
        "u128"@[3] == '8',
        "usize"@.len() == 5,
        "usize"@[0] == 'u',
        "usize"@[1] == 's',
        "usize"@[2] == 'i',
        "usize"@[3] == 'z',
        "usize"@[4] == 'e',
        "f32"@.len() == 3,
        "f32"@[0] == 'f',
        "f32"@[1] == '3',
        "f32"@[2] == '2',
        "f64"@.len() == 3,
        "f64"@[0] == 'f',
        "f64"@[1] == '6',
        "f64"@[2] == '4',
        "DateTime"@.len() == 8,
        "DateTime"@[0] == 'D',
        "DateTime"@[1] == 'a',
        "DateTime"@[2] == 't',
        "DateTime"@[3] == 'e',
        "DateTime"@[4] == 'T',
        "DateTime"@[5] == 'i',
        "DateTime"@[6] == 'm',
        "DateTime"@[7] == 'e',
        "Date"@.len() == 4,
        "Date"@[0] == 'D',
        "Date"@[1] == 'a',
        "Date"@[2] == 't',
        "Date"@[3] == 'e',
        "Duration"@.len() == 8,
        "Duration"@[0] == 'D',
        "Duration"@[1] == 'u',
        "Duration"@[2] == 'r',
        "Duration"@[3] == 'a',
        "Duration"@[4] == 't',
        "Duration"@[5] == 'i',
        "Duration"@[6] == 'o',
        "Duration"@[7] == 'n',
        "Uuid"@.len() == 4,
        "Uuid"@[0] == 'U',
        "Uuid"@[1] == 'u',
        "Uuid"@[2] == 'i',
        "Uuid"@[3] == 'd',
        "String"@.len() == 6,
        "String"@[0] == 'S',
        "String"@[1] == 't',
        "String"@[2] == 'r',
        "String"@[3] == 'i',
        "String"@[4] == 'n',
        "String"@[5] == 'g',
        "str"@.len() == 3,
        "str"@[0] == 's',
        "str"@[1] == 't',
        "str"@[2] == 'r',
        "char"@.len() == 4,
        "char"@[0] == 'c',
        "char"@[1] == 'h',
        "char"@[2] == 'a',
        "char"@[3] == 'r',
        "bool"@.len() == 4,
        "bool"@[0] == 'b',
        "bool"@[1] == 'o',
        "bool"@[2] == 'o',
        "bool"@[3] == 'l',
        "Decimal"@.len() == 7,
        "Decimal"@[0] == 'D',
        "Decimal"@[1] == 'e',
        "Decimal"@[2] == 'c',
        "Decimal"@[3] == 'i',
        "Decimal"@[4] == 'm',
        "Decimal"@[5] == 'a',
        "Decimal"@[6] == 'l',
        "PathBuf"@.len() == 7,
        "PathBuf"@[0] == 'P',
        "PathBuf"@[1] == 'a',
        "PathBuf"@[2] == 't',
        "PathBuf"@[3] == 'h',
        "PathBuf"@[4] == 'B',
        "PathBuf"@[5] == 'u',
        "PathBuf"@[6] == 'f',
{
    reveal_strlit("i8");
    reveal_strlit("i16");
    reveal_strlit("i32");
    reveal_strlit("i64");
    reveal_strlit("i128");
    reveal_strlit("isize");
    reveal_strlit("u8");
    reveal_strlit("u16");
    reveal_strlit("u32");
    reveal_strlit("u64");
    reveal_strlit("u128");
    reveal_strlit("usize");
    reveal_strlit("f32");
    reveal_strlit("f64");
    reveal_strlit("DateTime");
    reveal_strlit("Date");
    reveal_strlit("Duration");
    reveal_strlit("Uuid");
    reveal_strlit("String");
    reveal_strlit("str");
    reveal_strlit("char");
    reveal_strlit("bool");
    reveal_strlit("Decimal");
    reveal_strlit("PathBuf");
}

/// The width in bits of a fixed-width integer type name: `isize`, `usize`
/// and the names of other types have none.
pub open spec fn fixed_integer_bits(name: Seq<char>) -> Option<nat> {
    if name == "i8"@ || name == "u8"@ {
        Some(8)
    } else if name == "i16"@ || name == "u16"@ {
        Some(16)
    } else if name == "i32"@ || name == "u32"@ {
        Some(32)
    } else if name == "i64"@ || name == "u64"@ {
        Some(64)
    } else if name == "i128"@ || name == "u128"@ {
        Some(128)
    } else {
        None
    }
}

/// The format of an integer type follows its width, with any integrations:
/// `int32` for the integers of at most 32 bits, `int64` for those of 64
/// bits, none for the wider ones and for `isize` and `usize`; only integer
/// types get an integer format. `float` is the format of exactly the types
/// whose data type is `number`.
pub proof fn law_formats_follow_the_type(name: Seq<char>, f: TypeFeatures)
    ensures
        fixed_integer_bits(name) matches Some(w) ==> {
            &&& (format_of(name, f) == Some(Variant::Int32) <==> w <= 32)
            &&& (format_of(name, f) == Some(Variant::Int64) <==> w == 64)
            &&& (w > 64 ==> format_of(name, f) is None)
        },
        is_integer_name(name) && fixed_integer_bits(name) is None ==> format_of(name, f) is None,
        format_of(name, f) == Some(Variant::Int32) || format_of(name, f) == Some(Variant::Int64)
            ==> fixed_integer_bits(name) is Some && data_type_of(name, f) == DataType::Integer,
        format_of(name, f) == Some(Variant::Float) <==> data_type_of(name, f) == DataType::Number,
{
    lemma_type_name_chars();
    if name == "i8"@ {
        assert(format_of(name, f) == format_of("i8"@, f));
        assert(fixed_integer_bits(name) == fixed_integer_bits("i8"@));
        assert(data_type_of(name, f) == data_type_of("i8"@, f));
    }
    if name == "i16"@ {
        assert(format_of(name, f) == format_of("i16"@, f));
        assert(fixed_integer_bits(name) == fixed_integer_bits("i16"@));
        assert(data_type_of(name, f) == data_type_of("i16"@, f));
    }
    if name == "i32"@ {
        assert(format_of(name, f) == format_of("i32"@, f));
        assert(fixed_integer_bits(name) == fixed_integer_bits("i32"@));
        assert(data_type_of(name, f) == data_type_of("i32"@, f));
    }
    if name == "i64"@ {
        assert(format_of(name, f) == format_of("i64"@, f));
        assert(fixed_integer_bits(name) == fixed_integer_bits("i64"@));
        assert(data_type_of(name, f) == data_type_of("i64"@, f));
    }
    if name == "i128"@ {
        assert(format_of(name, f) == format_of("i128"@, f));
        assert(fixed_integer_bits(name) == fixed_integer_bits("i128"@));
        assert(data_type_of(name, f) == data_type_of("i128"@, f));
    }
    if name == "isize"@ {
        assert(format_of(name, f) == format_of("isize"@, f));
        assert(fixed_integer_bits(name) == fixed_integer_bits("isize"@));
        assert(data_type_of(name, f) == data_type_of("isize"@, f));
    }
    if name == "u8"@ {
        assert(format_of(name, f) == format_of("u8"@, f));
        assert(fixed_integer_bits(name) == fixed_integer_bits("u8"@));
        assert(data_type_of(name, f) == data_type_of("u8"@, f));
    }
    if name == "u16"@ {
        assert(format_of(name, f) == format_of("u16"@, f));
        assert(fixed_integer_bits(name) == fixed_integer_bits("u16"@));
        assert(data_type_of(name, f) == data_type_of("u16"@, f));
    }
    if name == "u32"@ {
        assert(format_of(name, f) == format_of("u32"@, f));
        assert(fixed_integer_bits(name) == fixed_integer_bits("u32"@));
        assert(data_type_of(name, f) == data_type_of("u32"@, f));
    }
    if name == "u64"@ {
        assert(format_of(name, f) == format_of("u64"@, f));
        assert(fixed_integer_bits(name) == fixed_integer_bits("u64"@));
        assert(data_type_of(name, f) == data_type_of("u64"@, f));
    }
    if name == "u128"@ {
        assert(format_of(name, f) == format_of("u128"@, f));
        assert(fixed_integer_bits(name) == fixed_integer_bits("u128"@));
        assert(data_type_of(name, f) == data_type_of("u128"@, f));
    }
    if name == "usize"@ {
        assert(format_of(name, f) == format_of("usize"@, f));
        assert(fixed_integer_bits(name) == fixed_integer_bits("usize"@));
        assert(data_type_of(name, f) == data_type_of("usize"@, f));
    }
    if name == "f32"@ {
        assert(format_of(name, f) == format_of("f32"@, f));
        assert(fixed_integer_bits(name) == fixed_integer_bits("f32"@));
        assert(data_type_of(name, f) == data_type_of("f32"@, f));
    }
    if name == "f64"@ {
        assert(format_of(name, f) == format_of("f64"@, f));
        assert(fixed_integer_bits(name) == fixed_integer_bits("f64"@));
        assert(data_type_of(name, f) == data_type_of("f64"@, f));
    }
}

/// The name under which a format is written in `format = ...`.
pub open spec fn format_name(v: Variant) -> Seq<char> {
    match v {
        Variant::Int32 => "Int32"@,
        Variant::Int64 => "Int64"@,
        Variant::Float => "Float"@,
        Variant::Double => "Double"@,
        Variant::Byte => "Byte"@,
        Variant::Binary => "Binary"@,
        Variant::Date => "Date"@,
        Variant::DateTime => "DateTime"@,
        Variant::Password => "Password"@,
        Variant::Uuid => "Uuid"@,
    }
}

/// The characters of the format names.
proof fn lemma_format_name_chars()
    ensures
        "Int32"@.len() == 5,
        "Int32"@[0] == 'I',
        "Int32"@[1] == 'n',
        "Int32"@[2] == 't',
        "Int32"@[3] == '3',
        "Int32"@[4] == '2',
        "Int64"@.len() == 5,
        "Int64"@[0] == 'I',
        "Int64"@[1] == 'n',
        "Int64"@[2] == 't',
        "Int64"@[3] == '6',
        "Int64"@[4] == '4',
        "Float"@.len() == 5,
        "Float"@[0] == 'F',
        "Float"@[1] == 'l',
        "Float"@[2] == 'o',
        "Float"@[3] == 'a',
        "Float"@[4] == 't',
        "Double"@.len() == 6,
        "Double"@[0] == 'D',
        "Double"@[1] == 'o',
        "Double"@[2] == 'u',
        "Double"@[3] == 'b',
        "Double"@[4] == 'l',
        "Double"@[5] == 'e',
        "Byte"@.len() == 4,
        "Byte"@[0] == 'B',
        "Byte"@[1] == 'y',
        "Byte"@[2] == 't',
        "Byte"@[3] == 'e',
        "Binary"@.len() == 6,
        "Binary"@[0] == 'B',
        "Binary"@[1] == 'i',
        "Binary"@[2] == 'n',
        "Binary"@[3] == 'a',
        "Binary"@[4] == 'r',
        "Binary"@[5] == 'y',
        "Date"@.len() == 4,
        "Date"@[0] == 'D',
        "Date"@[1] == 'a',
        "Date"@[2] == 't',
        "Date"@[3] == 'e',
        "DateTime"@.len() == 8,
        "DateTime"@[0] == 'D',
        "DateTime"@[1] == 'a',
        "DateTime"@[2] == 't',
        "DateTime"@[3] == 'e',
        "DateTime"@[4] == 'T',
        "DateTime"@[5] == 'i',
        "DateTime"@[6] == 'm',
        "DateTime"@[7] == 'e',
        "Password"@.len() == 8,
        "Password"@[0] == 'P',
        "Password"@[1] == 'a',
        "Password"@[2] == 's',
        "Password"@[3] == 's',
        "Password"@[4] == 'w',
        "Password"@[5] == 'o',
        "Password"@[6] == 'r',
        "Password"@[7] == 'd',
        "Uuid"@.len() == 4,
        "Uuid"@[0] == 'U',
        "Uuid"@[1] == 'u',
        "Uuid"@[2] == 'i',
        "Uuid"@[3] == 'd',
{
    reveal_strlit("Int32");
    reveal_strlit("Int64");
    reveal_strlit("Float");
    reveal_strlit("Double");
    reveal_strlit("Byte");
    reveal_strlit("Binary");
    reveal_strlit("Date");
    reveal_strlit("DateTime");
    reveal_strlit("Password");
    reveal_strlit("Uuid");
}

/// Reading a format name gives back the format of that name, and only the
/// name of a format reads as it: `Uuid` only where the `uuid` integration
/// is on.
pub proof fn law_format_names_read_back(v: Variant, name: Seq<char>, uuid: bool)
    ensures
        v != Variant::Uuid || uuid ==> variant_by_name(format_name(v), uuid) == Some(v),
        variant_by_name(name, uuid) == Some(v) ==> name == format_name(v),
        !uuid ==> variant_by_name(name, uuid) != Some(Variant::Uuid),
{
    lemma_format_name_chars();
    match v {
        Variant::Int32 => {
            assert(format_name(v) == "Int32"@);
        },
        Variant::Int64 => {
            assert(format_name(v) == "Int64"@);
        },
        Variant::Float => {
            assert(format_name(v) == "Float"@);
        },
        Variant::Double => {
            assert(format_name(v) == "Double"@);
        },
        Variant::Byte => {
            assert(format_name(v) == "Byte"@);
        },
        Variant::Binary => {
            assert(format_name(v) == "Binary"@);
        },
        Variant::Date => {
            assert(format_name(v) == "Date"@);
        },
        Variant::DateTime => {
            assert(format_name(v) == "DateTime"@);
        },
        Variant::Password => {
            assert(format_name(v) == "Password"@);
        },
        Variant::Uuid => {
            assert(format_name(v) == "Uuid"@);
        },
    }
}

/// A type has a known format exactly when a format is given for it, with
/// any integrations; and a type with a format is a primitive.
pub proof fn law_known_format_has_a_format(name: Seq<char>, f: TypeFeatures)
    ensures
        is_known_format_with(name, f) <==> format_of(name, f) is Some,
        format_of(name, f) is Some ==> is_component_primitive(name, f),
{
    lemma_type_name_chars();
}

/// A type is a primitive exactly when its schema's data type is not an
/// object, with any integrations; without any, exactly the Rust primitive
/// types are.
pub proof fn law_primitives_are_not_objects(name: Seq<char>, f: TypeFeatures)
    ensures
        is_component_primitive(name, f) <==> data_type_of(name, f) != DataType::Object,
        !f.chrono && !f.chrono_with_format && !f.decimal && !f.rocket_extras && !f.uuid ==> (
        is_primitive_name(name) <==> data_type_of(name, f) != DataType::Object),
        is_integer_name(name) ==> data_type_of(name, f) == DataType::Integer,
{
    lemma_type_name_chars();
}

} // verus!
