//! The features of `#[schema(...)]`, `#[param(...)]` and `#[into_params(...)]`
//! attributes, and the checks of validation features against the type that
//! they annotate.
use vstd::prelude::*;
use vstd::string::StringExecFns;

use crate::diagnostics::Diagnostics;
use crate::rename::{spec_rename_variant, RenameRule};
use crate::rust_type::{RustType, TypePath};
use crate::text::{chars_of, string_from_chars, str_eq, extend_chars};
use crate::type_tree::GenericType;

verus! {

/// Converts a value into what it wraps.
pub trait IntoInner<T>: Sized {
    fn into_inner(self) -> T;
}

/// Joins the features of another value of the same kind after its own.
pub trait Merge<T>: Sized {
    fn merge(self, from: T) -> Self;
}

/// Whether a feature list marks the schema as inlined.
pub trait IsInline {
    fn is_inline(&self) -> bool;
}

/// Whether a feature can be checked against the type it annotates.
pub trait Validatable {
    fn is_validatable(&self) -> bool;
}

/// The name of a feature type as written in attributes.
pub trait FeatureLike {
    fn get_name() -> String;
}

/// The name of a capability as written in attributes.
pub trait Name {
    fn get_name() -> &'static str;
}

/// A parameter serialization style.
#[derive(PartialEq, Eq, Structural, Clone, Copy, Debug)]
pub enum ParameterStyle {
    Matrix,
    Label,
    Form,
    Simple,
    SpaceDelimited,
    PipeDelimited,
    DeepObject,
}

/// Where a parameter goes.
#[derive(PartialEq, Eq, Structural, Clone, Copy, Debug)]
pub enum ParameterInKind {
    Query,
    Path,
    Header,
    Cookie,
}

/// A literal bool or the path of a function that returns one.
pub enum BoolOrPath {
    Bool(bool),
    Path(TypePath),
}

/// A number as written in an attribute: an optional minus sign and the
/// literal's text.
pub struct NumberValue {
    pub minus: bool,
    pub lit: String,
}

/// The text of a number: the literal, after a `-` where there is a minus.
pub open spec fn number_text(n: NumberValue) -> Seq<char> {
    if n.minus {
        seq!['-'] + n.lit@
    } else {
        n.lit@
    }
}

/// Whether the character is an ASCII digit.
pub open spec fn is_digit(c: char) -> bool {
    '0' <= c && c <= '9'
}

/// The value of a string of decimal digits.
pub open spec fn digits_value(s: Seq<char>) -> nat
    decreases s.len(),
{
    if s.len() == 0 {
        0
    } else {
        digits_value(s.drop_last()) * 10 + ((s.last() as u32) - ('0' as u32)) as nat
    }
}

/// What `usize::from_str` gives of a text: an optional `+`, then one or
/// more decimal digits whose value fits in `usize`.
pub open spec fn spec_parse_usize(s: Seq<char>) -> Option<usize> {
    digits_to_usize(usize_body(s))
}

/// The text after an optional leading `+`.
pub open spec fn usize_body(s: Seq<char>) -> Seq<char> {
    if s.len() > 0 && s[0] == '+' {
        s.drop_first()
    } else {
        s
    }
}

/// The value of one or more decimal digits, if it fits in `usize`.
pub open spec fn digits_to_usize(body: Seq<char>) -> Option<usize> {
    if body.len() > 0 && (forall|i: int| 0 <= i < body.len() ==> is_digit(#[trigger] body[i]))
        && digits_value(body) <= usize::MAX {
        Some(digits_value(body) as usize)
    } else {
        None
    }
}

/// Reads a `usize` from its decimal text, as `usize::from_str` does.
pub fn parse_usize(s: &Vec<char>) -> (res: Option<usize>)
    ensures
        res == spec_parse_usize(s@),
{
    let start: usize = if s.len() > 0 && s[0] == '+' {
        1
    } else {
        0
    };
    let ghost body = usize_body(s@);
    proof {
        assert(body =~= s@.subrange(start as int, s@.len() as int));
    }
    if start == s.len() {
        return None;
    }
    let mut value: usize = 0;
    let mut i = start;
    while i < s.len()
        invariant
            start <= i <= s@.len(),
            start < s@.len(),
            body =~= s@.subrange(start as int, s@.len() as int),
            body == usize_body(s@),
            forall|j: int| start <= j < i ==> is_digit(#[trigger] s@[j]),
            value == digits_value(s@.subrange(start as int, i as int)),
        decreases s@.len() - i,
    {
        let c = s[i];
        if !('0' <= c && c <= '9') {
            proof {
                assert(body[(i - start) as int] == c);
                assert(!is_digit(body[(i - start) as int]));
                assert(!(forall|j: int| 0 <= j < body.len() ==> is_digit(#[trigger] body[j])));
                assert(spec_parse_usize(s@) is None);
            }
            return None;
        }
        let d: u32 = (c as u32) - ('0' as u32);
        proof {
            assert(s@.subrange(start as int, i + 1).drop_last() =~= s@.subrange(start as int, i as int));
        }
        if value > (usize::MAX - (d as usize)) / 10 {
            proof {
                if forall|j: int| 0 <= j < body.len() ==> is_digit(#[trigger] body[j]) {
                    lemma_digits_value_grows(body, (i - start) as int + 1);
                }
                assert(body.subrange(0, (i - start) as int + 1) =~= s@.subrange(start as int, i + 1));
                assert(digits_value(s@.subrange(start as int, i + 1)) == value * 10 + d) by (nonlinear_arith)
                    requires
                        digits_value(s@.subrange(start as int, i + 1)) == digits_value(s@.subrange(start as int, i as int)) * 10 + d,
                        value == digits_value(s@.subrange(start as int, i as int));
                assert(value * 10 + d > usize::MAX) by (nonlinear_arith)
                    requires
                        value > (usize::MAX - d) / 10,
                        d <= 9;
            }
            return None;
        }
        proof {
            assert(value * 10 + d <= usize::MAX) by (nonlinear_arith)
                requires
                    value <= (usize::MAX - d) / 10,
                    d <= 9;
        }
        value = value * 10 + (d as usize);
        i = i + 1;
    }
    proof {
        assert(body =~= s@.subrange(start as int, i as int));
    }
    Some(value)
}

/// A longer prefix of digits has a value at least as large.
proof fn lemma_digits_value_grows(s: Seq<char>, k: int)
    requires
        0 <= k <= s.len(),
        forall|i: int| 0 <= i < s.len() ==> is_digit(#[trigger] s[i]),
    ensures
        digits_value(s) >= digits_value(s.subrange(0, k)),
    decreases s.len(),
{
    if s.len() > k {
        lemma_digits_value_grows(s.drop_last(), k);
        assert(s.drop_last().subrange(0, k) =~= s.subrange(0, k));
    } else {
        assert(s.subrange(0, k) =~= s);
    }
}

impl NumberValue {
    /// The text of the number.
    pub fn text(&self) -> (res: Vec<char>)
        ensures
            res@ == number_text(*self),
    {
        let lit = chars_of(self.lit.as_str());
        if self.minus {
            let mut v: Vec<char> = Vec::new();
            v.push('-');
            extend_chars(&mut v, &lit);
            proof {
                assert(v@ =~= seq!['-'] + self.lit@);
            }
            v
        } else {
            lit
        }
    }

    /// Reads the number as a `usize`.
    pub fn try_usize(&self) -> (res: Option<usize>)
        ensures
            res == spec_parse_usize(number_text(*self)),
    {
        let t = self.text();
        parse_usize(&t)
    }
}

/// An example value, by its source text.
pub struct Example(pub String);

/// Example values, by their source texts.
pub struct Examples(pub Vec<String>);

/// A value that a feature gives: by its source text, or the value that
/// the `Default` trait gives a field of a type.
pub enum AnyValue {
    Text(String),
    DefaultTrait { struct_ident: String, field: String },
}

/// A default value; `None` where the feature names no value.
pub struct Default(pub Option<AnyValue>);

/// Whether the schema is inlined.
pub struct Inline(pub bool);

/// XML options, by their source text.
pub struct XmlAttr(pub crate::xml::Xml);

/// A schema format, by its source text.
pub struct Format(pub String);

/// A type that stands for the field's own type.
pub struct ValueType(pub RustType);

impl ValueType {
    /// The type tree of the type that the feature gives.
    pub fn as_type_tree(&self) -> (res: Result<crate::type_tree::TypeTree, Diagnostics>)
        requires
            !(crate::type_tree::spec_from_type(crate::rust_type::type_view(self.0)) is Abort),
        ensures
            crate::type_tree::matches_tree(
                res,
                crate::type_tree::spec_from_type(crate::rust_type::type_view(self.0)),
            ),
    {
        crate::type_tree::from_type(&self.0)
    }
}

/// Whether the value is write-only.
pub struct WriteOnly(pub bool);

/// Whether the value is read-only.
pub struct ReadOnly(pub bool);

/// A title.
pub struct Title(pub String);

/// Whether the value may be null.
pub struct Nullable(pub bool);

/// A name that replaces the field's or variant's own.
pub struct Rename(pub String);

/// A rule that renames all fields or variants.
pub struct RenameAll(pub RenameRule);

/// A parameter serialization style.
pub struct Style(pub ParameterStyle);

/// Whether reserved characters are allowed.
pub struct AllowReserved(pub bool);

/// Whether values are exploded.
pub struct Explode(pub bool);

/// Where a parameter goes.
pub struct ParameterIn(pub ParameterInKind);

/// The names of the unnamed fields of an `IntoParams` type.
pub struct IntoParamsNames(pub Vec<String>);

/// A function that gives the schema.
pub struct SchemaWith(pub TypePath);

/// A description, by its source text.
pub struct Description(pub String);

/// Whether the item is deprecated.
pub struct Deprecated(pub bool);

/// A type path under which the schema is named.
pub struct As(pub TypePath);

/// Whether additional properties are allowed.
pub struct AdditionalProperties(pub bool);

/// Whether the value is required.
pub struct Required(pub bool);

/// A content encoding.
pub struct ContentEncoding(pub String);

/// A content media type.
pub struct ContentMediaType(pub String);

/// A discriminator, by its source text.
pub struct Discriminator(pub String);

/// Trait bounds, by their source text.
pub struct Bound(pub String);

/// Whether the field is ignored: a literal or a function path.
pub struct Ignore(pub BoolOrPath);

/// Marks a recursive type.
pub struct NoRecursion;

/// The number the value must be a multiple of.
pub struct MultipleOf(pub NumberValue);

/// The maximum value.
pub struct Maximum(pub NumberValue);

/// The minimum value.
pub struct Minimum(pub NumberValue);

/// The exclusive maximum value.
pub struct ExclusiveMaximum(pub NumberValue);

/// The exclusive minimum value.
pub struct ExclusiveMinimum(pub NumberValue);

/// The maximum length of a string.
pub struct MaxLength(pub NumberValue);

/// The minimum length of a string.
pub struct MinLength(pub NumberValue);

/// A pattern the string must match.
pub struct Pattern(pub String);

/// The maximum number of items.
pub struct MaxItems(pub NumberValue);

/// The minimum number of items.
pub struct MinItems(pub NumberValue);

/// The maximum number of properties.
pub struct MaxProperties(pub NumberValue);

/// The minimum number of properties.
pub struct MinProperties(pub NumberValue);

/// OpenAPI extensions, by their source text.
pub struct Extensions(pub String);

/// One attribute feature of a schema, field, variant or parameter.
pub enum Feature {
    Example(Example),
    Examples(Examples),
    Default(Default),
    Inline(Inline),
    XmlAttr(XmlAttr),
    Format(Format),
    ValueType(ValueType),
    WriteOnly(WriteOnly),
    ReadOnly(ReadOnly),
    Title(Title),
    Nullable(Nullable),
    Rename(Rename),
    RenameAll(RenameAll),
    Style(Style),
    AllowReserved(AllowReserved),
    Explode(Explode),
    ParameterIn(ParameterIn),
    IntoParamsNames(IntoParamsNames),
    SchemaWith(SchemaWith),
    Description(Description),
    Deprecated(Deprecated),
    As(As),
    AdditionalProperties(AdditionalProperties),
    Required(Required),
    ContentEncoding(ContentEncoding),
    ContentMediaType(ContentMediaType),
    Discriminator(Discriminator),
    Bound(Bound),
    Ignore(Ignore),
    NoRecursion(NoRecursion),
    MultipleOf(MultipleOf),
    Maximum(Maximum),
    Minimum(Minimum),
    ExclusiveMaximum(ExclusiveMaximum),
    ExclusiveMinimum(ExclusiveMinimum),
    MaxLength(MaxLength),
    MinLength(MinLength),
    Pattern(Pattern),
    MaxItems(MaxItems),
    MinItems(MinItems),
    MaxProperties(MaxProperties),
    MinProperties(MinProperties),
    Extensions(Extensions),
}

/// The kinds of features, without their values.
#[derive(PartialEq, Eq, Structural, Clone, Copy, Debug)]
pub enum FeatureKind {
    Example,
    Examples,
    Default,
    Inline,
    XmlAttr,
    Format,
    ValueType,
    WriteOnly,
    ReadOnly,
    Title,
    Nullable,
    Rename,
    RenameAll,
    Style,
    AllowReserved,
    Explode,
    ParameterIn,
    IntoParamsNames,
    SchemaWith,
    Description,
    Deprecated,
    As,
    AdditionalProperties,
    Required,
    ContentEncoding,
    ContentMediaType,
    Discriminator,
    Bound,
    Ignore,
    NoRecursion,
    MultipleOf,
    Maximum,
    Minimum,
    ExclusiveMaximum,
    ExclusiveMinimum,
    MaxLength,
    MinLength,
    Pattern,
    MaxItems,
    MinItems,
    MaxProperties,
    MinProperties,
    Extensions,
}

/// The kind of a feature.
pub open spec fn kind_of(f: Feature) -> FeatureKind {
    match f {
        Feature::Example(_) => FeatureKind::Example,
        Feature::Examples(_) => FeatureKind::Examples,
        Feature::Default(_) => FeatureKind::Default,
        Feature::Inline(_) => FeatureKind::Inline,
        Feature::XmlAttr(_) => FeatureKind::XmlAttr,
        Feature::Format(_) => FeatureKind::Format,
        Feature::ValueType(_) => FeatureKind::ValueType,
        Feature::WriteOnly(_) => FeatureKind::WriteOnly,
        Feature::ReadOnly(_) => FeatureKind::ReadOnly,
        Feature::Title(_) => FeatureKind::Title,
        Feature::Nullable(_) => FeatureKind::Nullable,
        Feature::Rename(_) => FeatureKind::Rename,
        Feature::RenameAll(_) => FeatureKind::RenameAll,
        Feature::Style(_) => FeatureKind::Style,
        Feature::AllowReserved(_) => FeatureKind::AllowReserved,
        Feature::Explode(_) => FeatureKind::Explode,
        Feature::ParameterIn(_) => FeatureKind::ParameterIn,
        Feature::IntoParamsNames(_) => FeatureKind::IntoParamsNames,
        Feature::SchemaWith(_) => FeatureKind::SchemaWith,
        Feature::Description(_) => FeatureKind::Description,
        Feature::Deprecated(_) => FeatureKind::Deprecated,
        Feature::As(_) => FeatureKind::As,
        Feature::AdditionalProperties(_) => FeatureKind::AdditionalProperties,
        Feature::Required(_) => FeatureKind::Required,
        Feature::ContentEncoding(_) => FeatureKind::ContentEncoding,
        Feature::ContentMediaType(_) => FeatureKind::ContentMediaType,
        Feature::Discriminator(_) => FeatureKind::Discriminator,
        Feature::Bound(_) => FeatureKind::Bound,
        Feature::Ignore(_) => FeatureKind::Ignore,
        Feature::NoRecursion(_) => FeatureKind::NoRecursion,
        Feature::MultipleOf(_) => FeatureKind::MultipleOf,
        Feature::Maximum(_) => FeatureKind::Maximum,
        Feature::Minimum(_) => FeatureKind::Minimum,
        Feature::ExclusiveMaximum(_) => FeatureKind::ExclusiveMaximum,
        Feature::ExclusiveMinimum(_) => FeatureKind::ExclusiveMinimum,
        Feature::MaxLength(_) => FeatureKind::MaxLength,
        Feature::MinLength(_) => FeatureKind::MinLength,
        Feature::Pattern(_) => FeatureKind::Pattern,
        Feature::MaxItems(_) => FeatureKind::MaxItems,
        Feature::MinItems(_) => FeatureKind::MinItems,
        Feature::MaxProperties(_) => FeatureKind::MaxProperties,
        Feature::MinProperties(_) => FeatureKind::MinProperties,
        Feature::Extensions(_) => FeatureKind::Extensions,
    }
}

/// The name of the type that holds a feature of the kind.
pub open spec fn holder_name(k: FeatureKind) -> Seq<char> {
    match k {
        FeatureKind::Example => "Example"@,
        FeatureKind::Examples => "Examples"@,
        FeatureKind::Default => "Default"@,
        FeatureKind::Inline => "Inline"@,
        FeatureKind::XmlAttr => "XmlAttr"@,
        FeatureKind::Format => "Format"@,
        FeatureKind::ValueType => "ValueType"@,
        FeatureKind::WriteOnly => "WriteOnly"@,
        FeatureKind::ReadOnly => "ReadOnly"@,
        FeatureKind::Title => "Title"@,
        FeatureKind::Nullable => "Nullable"@,
        FeatureKind::Rename => "Rename"@,
        FeatureKind::RenameAll => "RenameAll"@,
        FeatureKind::Style => "Style"@,
        FeatureKind::AllowReserved => "AllowReserved"@,
        FeatureKind::Explode => "Explode"@,
        FeatureKind::ParameterIn => "ParameterIn"@,
        FeatureKind::IntoParamsNames => "IntoParamsNames"@,
        FeatureKind::SchemaWith => "SchemaWith"@,
        FeatureKind::Description => "Description"@,
        FeatureKind::Deprecated => "Deprecated"@,
        FeatureKind::As => "As"@,
        FeatureKind::AdditionalProperties => "AdditionalProperties"@,
        FeatureKind::Required => "Required"@,
        FeatureKind::ContentEncoding => "ContentEncoding"@,
        FeatureKind::ContentMediaType => "ContentMediaType"@,
        FeatureKind::Discriminator => "Discriminator"@,
        FeatureKind::Bound => "Bound"@,
        FeatureKind::Ignore => "Ignore"@,
        FeatureKind::NoRecursion => "NoRecursion"@,
        FeatureKind::MultipleOf => "MultipleOf"@,
        FeatureKind::Maximum => "Maximum"@,
        FeatureKind::Minimum => "Minimum"@,
        FeatureKind::ExclusiveMaximum => "ExclusiveMaximum"@,
        FeatureKind::ExclusiveMinimum => "ExclusiveMinimum"@,
        FeatureKind::MaxLength => "MaxLength"@,
        FeatureKind::MinLength => "MinLength"@,
        FeatureKind::Pattern => "Pattern"@,
        FeatureKind::MaxItems => "MaxItems"@,
        FeatureKind::MinItems => "MinItems"@,
        FeatureKind::MaxProperties => "MaxProperties"@,
        FeatureKind::MinProperties => "MinProperties"@,
        FeatureKind::Extensions => "Extensions"@,
    }
}

/// The name that is given explicitly for a kind, if any.
pub open spec fn explicit_name(k: FeatureKind) -> Option<Seq<char>> {
    match k {
        FeatureKind::XmlAttr => Some("xml"@),
        FeatureKind::IntoParamsNames => Some("names"@),
        _ => None,
    }
}

/// The kinds that can be checked against the type they annotate.
pub open spec fn is_validatable_kind(k: FeatureKind) -> bool {
    match k {
        FeatureKind::MultipleOf => true,
        FeatureKind::Maximum => true,
        FeatureKind::Minimum => true,
        FeatureKind::ExclusiveMaximum => true,
        FeatureKind::ExclusiveMinimum => true,
        FeatureKind::MaxLength => true,
        FeatureKind::MinLength => true,
        FeatureKind::Pattern => true,
        FeatureKind::MaxItems => true,
        FeatureKind::MinItems => true,
        _ => false,
    }
}

impl Feature {
    /// The kind of the feature.
    pub fn kind(&self) -> (res: FeatureKind)
        ensures
            res == kind_of(*self),
    {
        match self {
            Feature::Example(_) => FeatureKind::Example,
            Feature::Examples(_) => FeatureKind::Examples,
            Feature::Default(_) => FeatureKind::Default,
            Feature::Inline(_) => FeatureKind::Inline,
            Feature::XmlAttr(_) => FeatureKind::XmlAttr,
            Feature::Format(_) => FeatureKind::Format,
            Feature::ValueType(_) => FeatureKind::ValueType,
            Feature::WriteOnly(_) => FeatureKind::WriteOnly,
            Feature::ReadOnly(_) => FeatureKind::ReadOnly,
            Feature::Title(_) => FeatureKind::Title,
            Feature::Nullable(_) => FeatureKind::Nullable,
            Feature::Rename(_) => FeatureKind::Rename,
            Feature::RenameAll(_) => FeatureKind::RenameAll,
            Feature::Style(_) => FeatureKind::Style,
            Feature::AllowReserved(_) => FeatureKind::AllowReserved,
            Feature::Explode(_) => FeatureKind::Explode,
            Feature::ParameterIn(_) => FeatureKind::ParameterIn,
            Feature::IntoParamsNames(_) => FeatureKind::IntoParamsNames,
            Feature::SchemaWith(_) => FeatureKind::SchemaWith,
            Feature::Description(_) => FeatureKind::Description,
            Feature::Deprecated(_) => FeatureKind::Deprecated,
            Feature::As(_) => FeatureKind::As,
            Feature::AdditionalProperties(_) => FeatureKind::AdditionalProperties,
            Feature::Required(_) => FeatureKind::Required,
            Feature::ContentEncoding(_) => FeatureKind::ContentEncoding,
            Feature::ContentMediaType(_) => FeatureKind::ContentMediaType,
            Feature::Discriminator(_) => FeatureKind::Discriminator,
            Feature::Bound(_) => FeatureKind::Bound,
            Feature::Ignore(_) => FeatureKind::Ignore,
            Feature::NoRecursion(_) => FeatureKind::NoRecursion,
            Feature::MultipleOf(_) => FeatureKind::MultipleOf,
            Feature::Maximum(_) => FeatureKind::Maximum,
            Feature::Minimum(_) => FeatureKind::Minimum,
            Feature::ExclusiveMaximum(_) => FeatureKind::ExclusiveMaximum,
            Feature::ExclusiveMinimum(_) => FeatureKind::ExclusiveMinimum,
            Feature::MaxLength(_) => FeatureKind::MaxLength,
            Feature::MinLength(_) => FeatureKind::MinLength,
            Feature::Pattern(_) => FeatureKind::Pattern,
            Feature::MaxItems(_) => FeatureKind::MaxItems,
            Feature::MinItems(_) => FeatureKind::MinItems,
            Feature::MaxProperties(_) => FeatureKind::MaxProperties,
            Feature::MinProperties(_) => FeatureKind::MinProperties,
            Feature::Extensions(_) => FeatureKind::Extensions,
        }
    }
}

impl FeatureKind {
    /// The name of the type that holds a feature of the kind.
    pub fn holder_name(&self) -> (res: &'static str)
        ensures
            res@ == holder_name(*self),
    {
        match self {
            FeatureKind::Example => "Example",
            FeatureKind::Examples => "Examples",
            FeatureKind::Default => "Default",
            FeatureKind::Inline => "Inline",
            FeatureKind::XmlAttr => "XmlAttr",
            FeatureKind::Format => "Format",
            FeatureKind::ValueType => "ValueType",
            FeatureKind::WriteOnly => "WriteOnly",
            FeatureKind::ReadOnly => "ReadOnly",
            FeatureKind::Title => "Title",
            FeatureKind::Nullable => "Nullable",
            FeatureKind::Rename => "Rename",
            FeatureKind::RenameAll => "RenameAll",
            FeatureKind::Style => "Style",
            FeatureKind::AllowReserved => "AllowReserved",
            FeatureKind::Explode => "Explode",
            FeatureKind::ParameterIn => "ParameterIn",
            FeatureKind::IntoParamsNames => "IntoParamsNames",
            FeatureKind::SchemaWith => "SchemaWith",
            FeatureKind::Description => "Description",
            FeatureKind::Deprecated => "Deprecated",
            FeatureKind::As => "As",
            FeatureKind::AdditionalProperties => "AdditionalProperties",
            FeatureKind::Required => "Required",
            FeatureKind::ContentEncoding => "ContentEncoding",
            FeatureKind::ContentMediaType => "ContentMediaType",
            FeatureKind::Discriminator => "Discriminator",
            FeatureKind::Bound => "Bound",
            FeatureKind::Ignore => "Ignore",
            FeatureKind::NoRecursion => "NoRecursion",
            FeatureKind::MultipleOf => "MultipleOf",
            FeatureKind::Maximum => "Maximum",
            FeatureKind::Minimum => "Minimum",
            FeatureKind::ExclusiveMaximum => "ExclusiveMaximum",
            FeatureKind::ExclusiveMinimum => "ExclusiveMinimum",
            FeatureKind::MaxLength => "MaxLength",
            FeatureKind::MinLength => "MinLength",
            FeatureKind::Pattern => "Pattern",
            FeatureKind::MaxItems => "MaxItems",
            FeatureKind::MinItems => "MinItems",
            FeatureKind::MaxProperties => "MaxProperties",
            FeatureKind::MinProperties => "MinProperties",
            FeatureKind::Extensions => "Extensions",
        }
    }

    /// The name that is given explicitly for the kind, if any.
    pub fn explicit_name(&self) -> (res: Option<&'static str>)
        ensures
            match res {
                Some(s) => explicit_name(*self) == Some(s@),
                None => explicit_name(*self) is None,
            },
    {
        match self {
            FeatureKind::XmlAttr => Some("xml"),
            FeatureKind::IntoParamsNames => Some("names"),
            _ => None,
        }
    }

    /// Whether features of the kind can be checked against the type they
    /// annotate.
    pub fn is_validatable(&self) -> (res: bool)
        ensures
            res == is_validatable_kind(*self),
    {
        match self {
            FeatureKind::MultipleOf => true,
            FeatureKind::Maximum => true,
            FeatureKind::Minimum => true,
            FeatureKind::ExclusiveMaximum => true,
            FeatureKind::ExclusiveMinimum => true,
            FeatureKind::MaxLength => true,
            FeatureKind::MinLength => true,
            FeatureKind::Pattern => true,
            FeatureKind::MaxItems => true,
            FeatureKind::MinItems => true,
            _ => false,
        }
    }
}


impl Nullable {
    /// A nullable feature that is set.
    pub fn new() -> (res: Nullable)
        ensures
            res.0,
    {
        Nullable(true)
    }

    /// Whether the value may be null.
    pub fn value(&self) -> (res: bool)
        ensures
            res == self.0,
    {
        self.0
    }
}

impl Rename {
    /// The new name.
    pub fn into_value(self) -> (res: String)
        ensures
            res == self.0,
    {
        self.0
    }
}

impl RenameAll {
    /// The rule.
    pub fn as_rename_rule(&self) -> (res: &RenameRule)
        ensures
            *res == self.0,
    {
        &self.0
    }
}

impl ParameterIn {
    /// Whether the parameter goes in the query.
    pub fn is_query(&self) -> (res: bool)
        ensures
            res == (self.0 == ParameterInKind::Query),
    {
        self.0 == ParameterInKind::Query
    }
}

impl IntoParamsNames {
    /// The names.
    pub fn into_values(self) -> (res: Vec<String>)
        ensures
            res == self.0,
    {
        self.0
    }
}

impl Required {
    /// Whether the value is required.
    pub fn is_true(&self) -> (res: bool)
        ensures
            res == self.0,
    {
        self.0
    }
}

/// The segment names of a path joined with dots.
pub open spec fn dotted(idents: Seq<Seq<char>>) -> Seq<char>
    decreases idents.len(),
{
    if idents.len() == 0 {
        Seq::empty()
    } else if idents.len() == 1 {
        idents[0]
    } else {
        dotted(idents.drop_last()) + seq!['.'] + idents.last()
    }
}

impl As {
    /// The type path with `::` written as `.`, as the OpenAPI document names
    /// schemas.
    pub fn to_schema_formatted_string(&self) -> (res: String)
        ensures
            res@ == dotted(self.0.segments@.map_values(|s: crate::rust_type::TypeSegment| s.ident@)),
    {
        let ghost names = self.0.segments@.map_values(|s: crate::rust_type::TypeSegment| s.ident@);
        let mut out: Vec<char> = Vec::new();
        let n = self.0.segments.len();
        for i in 0..n
            invariant
                n == self.0.segments@.len(),
                names == self.0.segments@.map_values(|s: crate::rust_type::TypeSegment| s.ident@),
                out@ == dotted(names.take(i as int)),
        {
            let ghost before = out@;
            if i > 0 {
                out.push('.');
            }
            let name = chars_of(self.0.segments[i].ident.as_str());
            extend_chars(&mut out, &name);
            proof {
                assert(names.take(i + 1).drop_last() =~= names.take(i as int));
                if i == 0 {
                    assert(names.take(1) =~= seq![names[0]]);
                    assert(out@ =~= name@);
                } else {
                    assert(out@ =~= before + seq!['.'] + names[i as int]);
                }
            }
        }
        proof {
            assert(names.take(n as int) =~= names);
        }
        string_from_chars(&out)
    }
}

/// The name of a feature kind as written in attributes: its explicit name,
/// or the snake case of its type name.
pub open spec fn feature_name(k: FeatureKind) -> Seq<char> {
    match explicit_name(k) {
        Some(n) => n,
        None => spec_rename_variant(RenameRule::Snake, holder_name(k)),
    }
}

impl Feature {
    /// The name of the feature as written in attributes.
    pub fn get_name(&self) -> (res: String)
        ensures
            res@ == feature_name(kind_of(*self)),
    {
        let k = self.kind();
        match k.explicit_name() {
            Some(n) => String::from_str(n),
            None => RenameRule::Snake.rename_variant(k.holder_name()),
        }
    }
}

impl Validatable for Feature {
    fn is_validatable(&self) -> (res: bool)
        ensures
            res == is_validatable_kind(kind_of(*self)),
    {
        self.kind().is_validatable()
    }
}

impl IsInline for Vec<Feature> {
    fn is_inline(&self) -> (res: bool)
        ensures
            res == exists|i: int|
                0 <= i < self@.len() && (#[trigger] self@[i] matches Feature::Inline(x) && x.0),
    {
        let n = self.len();
        for i in 0..n
            invariant
                n == self@.len(),
                forall|j: int|
                    0 <= j < i ==> !(#[trigger] self@[j] matches Feature::Inline(x) && x.0),
        {
            match &self[i] {
                Feature::Inline(x) => {
                    if x.0 {
                        return true;
                    }
                },
                _ => {},
            }
        }
        false
    }
}

/// Whether some feature of the list is of the kind.
pub open spec fn has_kind(s: Seq<Feature>, kind: FeatureKind) -> bool {
    exists|i: int| 0 <= i < s.len() && kind_of(#[trigger] s[i]) == kind
}

/// Whether some feature is of the kind.
pub fn has_feature_kind(fs: &Vec<Feature>, kind: FeatureKind) -> (res: bool)
    ensures
        res == has_kind(fs@, kind),
{
    let n = fs.len();
    for i in 0..n
        invariant
            n == fs@.len(),
            forall|j: int| 0 <= j < i ==> kind_of(#[trigger] fs@[j]) != kind,
    {
        if fs[i].kind() == kind {
            return true;
        }
    }
    false
}

/// Whether `i` is the position of the first feature of the kind.
pub open spec fn is_first_of_kind(s: Seq<Feature>, kind: FeatureKind, i: int) -> bool {
    &&& 0 <= i < s.len()
    &&& kind_of(s[i]) == kind
    &&& forall|j: int| 0 <= j < i ==> kind_of(#[trigger] s[j]) != kind
}

/// The position of the first feature of the kind (where there is one).
pub open spec fn first_of_kind(s: Seq<Feature>, kind: FeatureKind) -> int {
    choose|i: int| is_first_of_kind(s, kind, i)
}

/// What taking out the first feature of the kind gives: the feature, and the
/// list with the last feature in its place; nothing, and the list unchanged,
/// where no feature is of the kind.
pub open spec fn spec_pop_by(s: Seq<Feature>, kind: FeatureKind) -> (Option<Feature>, Seq<Feature>) {
    if has_kind(s, kind) {
        let i = first_of_kind(s, kind);
        (Some(s[i]), s.update(i, s.last()).drop_last())
    } else {
        (None, s)
    }
}

/// The first feature of a kind is at one position only.
pub proof fn lemma_first_of_kind(s: Seq<Feature>, kind: FeatureKind, i: int)
    requires
        is_first_of_kind(s, kind, i),
    ensures
        has_kind(s, kind),
        first_of_kind(s, kind) == i,
{
    assert(kind_of(s[i]) == kind);
    let k = first_of_kind(s, kind);
    assert(is_first_of_kind(s, kind, k));
    if k < i {
        assert(kind_of(s[k]) != kind);
    } else if i < k {
        assert(kind_of(s[i]) != kind);
    }
}

/// Takes out the first feature of the kind, if there is one: the last
/// feature of the list takes its place.
pub fn pop_by(features: &mut Vec<Feature>, kind: FeatureKind) -> (res: Option<Feature>)
    ensures
        (res, final(features)@) == spec_pop_by(old(features)@, kind),
{
    let n = features.len();
    for i in 0..n
        invariant
            n == features@.len(),
            features@ == old(features)@,
            forall|j: int| 0 <= j < i ==> kind_of(#[trigger] features@[j]) != kind,
    {
        if features[i].kind() == kind {
            proof {
                lemma_first_of_kind(features@, kind, i as int);
            }
            let f = features.swap_remove(i);
            return Some(f);
        }
    }
    None
}

/// What is wrong with the type for a check: `None` when the check passes.
pub open spec fn check_failure(c: Check) -> Option<Seq<char>> {
    match c {
        Check::IsNumber(k) => if k == SchemaKind::Number || k == SchemaKind::Integer {
            None
        } else {
            Some("can only be used with `number` type"@)
        },
        Check::IsString(k) => if k == SchemaKind::String {
            None
        } else {
            Some("can only be used with `string` type"@)
        },
        Check::IsInteger(k) => if k == SchemaKind::Integer {
            None
        } else {
            Some("can only be used with `integer` type"@)
        },
        Check::IsVec(g) => if g == Some(GenericType::Vec) {
            None
        } else {
            Some("can only be used with `Vec`, `array` or `slice` types"@)
        },
        Check::AboveZeroUsize(n) => match spec_parse_usize(number_text(n)) {
            None => Some("invalid type, expected `usize`"@),
            Some(v) => if v != 0 {
                None
            } else {
                Some("can only be above zero value"@)
            },
        },
        Check::AboveZeroF64(parsed) => match parsed {
            None => Some("invalid type, expected `f64`"@),
            Some(positive) => if positive {
                None
            } else {
                Some("can only be above zero value"@)
            },
        },
    }
}

/// The OpenAPI type that a Rust type name stands for.
#[derive(PartialEq, Eq, Structural, Clone, Copy, Debug)]
pub enum SchemaKind {
    String,
    Boolean,
    Integer,
    Number,
    Object,
}

/// The OpenAPI type of a Rust type name.
pub open spec fn schema_kind_of(name: Seq<char>) -> SchemaKind {
    if name == "String"@ || name == "str"@ || name == "char"@ {
        SchemaKind::String
    } else if name == "bool"@ {
        SchemaKind::Boolean
    } else if name == "i8"@ || name == "i16"@ || name == "i32"@ || name == "i64"@ || name == "i128"@
        || name == "isize"@ || name == "u8"@ || name == "u16"@ || name == "u32"@ || name == "u64"@
        || name == "u128"@ || name == "usize"@ {
        SchemaKind::Integer
    } else if name == "f32"@ || name == "f64"@ {
        SchemaKind::Number
    } else {
        SchemaKind::Object
    }
}

/// The kind that validation checks a type against agrees with the data type
/// of the type's schema: a type is a number, an integer or a boolean for
/// the checks exactly when its schema is one, with any integrations; and,
/// with none, a string exactly when its schema is one.
pub proof fn law_schema_kind_agrees_with_data_type(name: Seq<char>, f: crate::component_type::TypeFeatures)
    ensures
        schema_kind_of(name) == SchemaKind::Number <==> crate::component_type::data_type_of(name, f)
            == crate::component_type::DataType::Number,
        schema_kind_of(name) == SchemaKind::Integer <==> crate::component_type::data_type_of(name, f)
            == crate::component_type::DataType::Integer,
        schema_kind_of(name) == SchemaKind::Boolean <==> crate::component_type::data_type_of(name, f)
            == crate::component_type::DataType::Boolean,
        !f.chrono && !f.chrono_with_format && !f.decimal && !f.rocket_extras && !f.uuid ==> (
        schema_kind_of(name) == SchemaKind::String <==> crate::component_type::data_type_of(name, f)
            == crate::component_type::DataType::String),
{
    crate::component_type::lemma_type_name_chars();
}

/// The OpenAPI type of a Rust type name.
pub fn schema_kind(name: &str) -> (res: SchemaKind)
    ensures
        res == schema_kind_of(name@),
{
    if str_eq(name, "String") || str_eq(name, "str") || str_eq(name, "char") {
        SchemaKind::String
    } else if str_eq(name, "bool") {
        SchemaKind::Boolean
    } else if str_eq(name, "i8") || str_eq(name, "i16") || str_eq(name, "i32") || str_eq(name, "i64")
        || str_eq(name, "i128") || str_eq(name, "isize") || str_eq(name, "u8") || str_eq(name, "u16")
        || str_eq(name, "u32") || str_eq(name, "u64") || str_eq(name, "u128") || str_eq(
        name,
        "usize",
    ) {
        SchemaKind::Integer
    } else if str_eq(name, "f32") || str_eq(name, "f64") {
        SchemaKind::Number
    } else {
        SchemaKind::Object
    }
}

/// A check of a validation feature against the type it annotates.
pub enum Check {
    /// The type is a number (an integer or a float).
    IsNumber(SchemaKind),
    /// The type is a string.
    IsString(SchemaKind),
    /// The type is an integer.
    IsInteger(SchemaKind),
    /// The type is a `Vec`, an array or a slice.
    IsVec(Option<GenericType>),
    /// The number is a `usize` above zero.
    AboveZeroUsize(NumberValue),
    /// The number read as an `f64`: `None` where it is none, else whether it
    /// is above zero.
    AboveZeroF64(Option<bool>),
}

/// Checks a feature's value or the annotated type.
pub trait Validator {
    fn is_valid(&self) -> Result<(), &'static str>;
}

impl Validator for Check {
    fn is_valid(&self) -> (res: Result<(), &'static str>)
        ensures
            match res {
                Ok(_) => check_failure(*self) is None,
                Err(m) => check_failure(*self) == Some(m@),
            },
    {
        match self {
            Check::IsNumber(k) => if *k == SchemaKind::Number || *k == SchemaKind::Integer {
                Ok(())
            } else {
                Err("can only be used with `number` type")
            },
            Check::IsString(k) => if *k == SchemaKind::String {
                Ok(())
            } else {
                Err("can only be used with `string` type")
            },
            Check::IsInteger(k) => if *k == SchemaKind::Integer {
                Ok(())
            } else {
                Err("can only be used with `integer` type")
            },
            Check::IsVec(g) => if *g == Some(GenericType::Vec) {
                Ok(())
            } else {
                Err("can only be used with `Vec`, `array` or `slice` types")
            },
            Check::AboveZeroUsize(n) => match n.try_usize() {
                None => Err("invalid type, expected `usize`"),
                Some(v) => if v != 0 {
                    Ok(())
                } else {
                    Err("can only be above zero value")
                },
            },
            Check::AboveZeroF64(parsed) => match parsed {
                None => Err("invalid type, expected `f64`"),
                Some(positive) => if *positive {
                    Ok(())
                } else {
                    Err("can only be above zero value")
                },
            },
        }
    }
}

/// Two checks in turn: the second runs only when the first passes.
pub struct ValidatorChain {
    pub inner: Check,
    pub next: Option<Check>,
}

/// What is wrong for a chain of checks: the failure of the first check that
/// fails.
pub open spec fn chain_failure(c: ValidatorChain) -> Option<Seq<char>> {
    match check_failure(c.inner) {
        Some(m) => Some(m),
        None => match c.next {
            Some(n) => check_failure(n),
            None => None,
        },
    }
}

impl ValidatorChain {
    /// A chain of one check.
    pub fn new(validator: Check) -> (res: ValidatorChain)
        ensures
            res.inner == validator,
            res.next is None,
    {
        ValidatorChain { inner: validator, next: None }
    }

    /// Sets the check that runs after the first one.
    pub fn next(self, validator: Check) -> (res: ValidatorChain)
        ensures
            res.inner == self.inner,
            res.next == Some(validator),
    {
        let mut c = self;
        c.next = Some(validator);
        c
    }
}

impl Validator for ValidatorChain {
    fn is_valid(&self) -> (res: Result<(), &'static str>)
        ensures
            match res {
                Ok(_) => chain_failure(*self) is None,
                Err(m) => chain_failure(*self) == Some(m@),
            },
    {
        match self.inner.is_valid() {
            Err(e) => Err(e),
            Ok(_) => match &self.next {
                Some(n) => n.is_valid(),
                None => Ok(()),
            },
        }
    }
}

/// The checks of each validation feature, for the annotated type's OpenAPI
/// type and generic wrapper and, for `multiple_of`, its number read as an
/// `f64`.
pub open spec fn feature_checks(
    f: Feature,
    schema: SchemaKind,
    generic: Option<GenericType>,
    f64_positive: Option<bool>,
) -> ValidatorChain {
    match f {
        Feature::MultipleOf(_) => ValidatorChain {
            inner: Check::IsNumber(schema),
            next: Some(Check::AboveZeroF64(f64_positive)),
        },
        Feature::Maximum(_) => ValidatorChain { inner: Check::IsNumber(schema), next: None },
        Feature::Minimum(_) => ValidatorChain { inner: Check::IsNumber(schema), next: None },
        Feature::ExclusiveMaximum(_) => ValidatorChain { inner: Check::IsNumber(schema), next: None },
        Feature::ExclusiveMinimum(_) => ValidatorChain { inner: Check::IsNumber(schema), next: None },
        Feature::MaxLength(n) => ValidatorChain {
            inner: Check::IsString(schema),
            next: Some(Check::AboveZeroUsize(n.0)),
        },
        Feature::MinLength(n) => ValidatorChain {
            inner: Check::IsString(schema),
            next: Some(Check::AboveZeroUsize(n.0)),
        },
        Feature::Pattern(_) => ValidatorChain { inner: Check::IsString(schema), next: None },
        Feature::MaxItems(n) => ValidatorChain {
            inner: Check::AboveZeroUsize(n.0),
            next: Some(Check::IsVec(generic)),
        },
        Feature::MinItems(n) => ValidatorChain {
            inner: Check::AboveZeroUsize(n.0),
            next: Some(Check::IsVec(generic)),
        },
        _ => ValidatorChain { inner: Check::IsVec(Some(GenericType::Vec)), next: None },
    }
}

/// The help link of each validation feature.
pub open spec fn feature_help(k: FeatureKind) -> Seq<char> {
    match k {
        FeatureKind::MultipleOf => "See more details: `http://json-schema.org/draft/2020-12/json-schema-validation.html#name-multipleof`"@,
        FeatureKind::Maximum => "See more details: `http://json-schema.org/draft/2020-12/json-schema-validation.html#name-maximum`"@,
        FeatureKind::Minimum => "See more details: `http://json-schema.org/draft/2020-12/json-schema-validation.html#name-minimum`"@,
        FeatureKind::ExclusiveMaximum => "See more details: `http://json-schema.org/draft/2020-12/json-schema-validation.html#name-exclusivemaximum`"@,
        FeatureKind::ExclusiveMinimum => "See more details: `http://json-schema.org/draft/2020-12/json-schema-validation.html#name-exclusiveminimum`"@,
        FeatureKind::MaxLength => "See more details: `http://json-schema.org/draft/2020-12/json-schema-validation.html#name-maxlength`"@,
        FeatureKind::MinLength => "See more details: `http://json-schema.org/draft/2020-12/json-schema-validation.html#name-minlength`"@,
        FeatureKind::Pattern => "See more details: `http://json-schema.org/draft/2020-12/json-schema-validation.html#name-pattern`"@,
        FeatureKind::MaxItems => "See more details: `http://json-schema.org/draft/2020-12/json-schema-validation.html#name-maxitems"@,
        _ => "See more details: `http://json-schema.org/draft/2020-12/json-schema-validation.html#name-minitems"@,
    }
}

/// The error of a validation feature whose check fails: "`name` error: "
/// and the failure, with the help link.
pub open spec fn validation_error(k: FeatureKind, failure: Seq<char>) -> Seq<(Seq<char>, Seq<(bool, Seq<char>)>)> {
    seq![(seq!['`'] + feature_name(k) + "` error: "@ + failure, seq![(false, feature_help(k))])]
}

fn feature_help_exec(k: FeatureKind) -> (res: &'static str)
    requires
        is_validatable_kind(k),
    ensures
        res@ == feature_help(k),
{
    match k {
        FeatureKind::MultipleOf => "See more details: `http://json-schema.org/draft/2020-12/json-schema-validation.html#name-multipleof`",
        FeatureKind::Maximum => "See more details: `http://json-schema.org/draft/2020-12/json-schema-validation.html#name-maximum`",
        FeatureKind::Minimum => "See more details: `http://json-schema.org/draft/2020-12/json-schema-validation.html#name-minimum`",
        FeatureKind::ExclusiveMaximum => "See more details: `http://json-schema.org/draft/2020-12/json-schema-validation.html#name-exclusivemaximum`",
        FeatureKind::ExclusiveMinimum => "See more details: `http://json-schema.org/draft/2020-12/json-schema-validation.html#name-exclusiveminimum`",
        FeatureKind::MaxLength => "See more details: `http://json-schema.org/draft/2020-12/json-schema-validation.html#name-maxlength`",
        FeatureKind::MinLength => "See more details: `http://json-schema.org/draft/2020-12/json-schema-validation.html#name-minlength`",
        FeatureKind::Pattern => "See more details: `http://json-schema.org/draft/2020-12/json-schema-validation.html#name-pattern`",
        FeatureKind::MaxItems => "See more details: `http://json-schema.org/draft/2020-12/json-schema-validation.html#name-maxitems",
        _ => "See more details: `http://json-schema.org/draft/2020-12/json-schema-validation.html#name-minitems",
    }
}

impl Feature {
    /// The checks of a validation feature for the annotated type.
    pub fn checks(
        &self,
        schema: SchemaKind,
        generic: Option<GenericType>,
        f64_positive: Option<bool>,
    ) -> (res: ValidatorChain)
        ensures
            res == feature_checks(*self, schema, generic, f64_positive),
    {
        match self {
            Feature::MultipleOf(_) => ValidatorChain::new(Check::IsNumber(schema)).next(
                Check::AboveZeroF64(f64_positive),
            ),
            Feature::Maximum(_) => ValidatorChain::new(Check::IsNumber(schema)),
            Feature::Minimum(_) => ValidatorChain::new(Check::IsNumber(schema)),
            Feature::ExclusiveMaximum(_) => ValidatorChain::new(Check::IsNumber(schema)),
            Feature::ExclusiveMinimum(_) => ValidatorChain::new(Check::IsNumber(schema)),
            Feature::MaxLength(n) => ValidatorChain::new(Check::IsString(schema)).next(
                Check::AboveZeroUsize(NumberValue { minus: n.0.minus, lit: n.0.lit.clone() }),
            ),
            Feature::MinLength(n) => ValidatorChain::new(Check::IsString(schema)).next(
                Check::AboveZeroUsize(NumberValue { minus: n.0.minus, lit: n.0.lit.clone() }),
            ),
            Feature::Pattern(_) => ValidatorChain::new(Check::IsString(schema)),
            Feature::MaxItems(n) => ValidatorChain::new(
                Check::AboveZeroUsize(NumberValue { minus: n.0.minus, lit: n.0.lit.clone() }),
            ).next(Check::IsVec(generic)),
            Feature::MinItems(n) => ValidatorChain::new(
                Check::AboveZeroUsize(NumberValue { minus: n.0.minus, lit: n.0.lit.clone() }),
            ).next(Check::IsVec(generic)),
            _ => ValidatorChain::new(Check::IsVec(Some(GenericType::Vec))),
        }
    }

    /// Checks a validation feature against the annotated type: its OpenAPI
    /// type and generic wrapper and, for `multiple_of`, its number read as an
    /// `f64` (`None` where it is none, else whether it is above zero). A
    /// failed check is an error that names the feature, with a help link.
    pub fn validate(
        &self,
        schema: SchemaKind,
        generic: Option<GenericType>,
        f64_positive: Option<bool>,
    ) -> (res: Option<Diagnostics>)
        requires
            is_validatable_kind(kind_of(*self)),
        ensures
            match res {
                None => chain_failure(feature_checks(*self, schema, generic, f64_positive)) is None,
                Some(d) => chain_failure(feature_checks(*self, schema, generic, f64_positive)) is Some
                    && d@ == validation_error(
                    kind_of(*self),
                    chain_failure(feature_checks(*self, schema, generic, f64_positive))->Some_0,
                ),
            },
    {
        let chain = self.checks(schema, generic, f64_positive);
        match chain.is_valid() {
            Ok(_) => None,
            Err(error) => {
                let name = self.get_name();
                let mut message: Vec<char> = Vec::new();
                message.push('`');
                let nv = chars_of(name.as_str());
                extend_chars(&mut message, &nv);
                let tail = chars_of("` error: ");
                extend_chars(&mut message, &tail);
                let ev = chars_of(error);
                extend_chars(&mut message, &ev);
                let d = Diagnostics::new(string_from_chars(&message));
                let help = String::from_str(feature_help_exec(self.kind()));
                let d = d.help(help);
                proof {
                    assert(message@ =~= seq!['`'] + feature_name(kind_of(*self)) + "` error: "@ + error@);
                    let s = d@[0].1;
                    let k = choose|k: int| 0 <= k <= 0 && s == Seq::<(bool, Seq<char>)>::empty().insert(k, (false, help@));
                    assert(s =~= seq![(false, help@)]);
                    assert(d@ =~= validation_error(kind_of(*self), error@));
                }
                Some(d)
            },
        }
    }
}

/// The features of a named field struct's `#[schema(...)]` attributes.
pub struct NamedFieldStructFeatures(pub Vec<Feature>);

/// The features of an unnamed field struct's `#[schema(...)]` attributes.
pub struct UnnamedFieldStructFeatures(pub Vec<Feature>);

/// The features of a plain enum's `#[schema(...)]` attributes.
pub struct EnumFeatures(pub Vec<Feature>);

/// The features of a mixed enum's `#[schema(...)]` attributes.
pub struct MixedEnumFeatures(pub Vec<Feature>);

/// The features of a named field's `#[schema(...)]` attributes.
pub struct NamedFieldFeatures(pub Vec<Feature>);

/// The features of a named field enum variant's `#[schema(...)]` attributes.
pub struct EnumNamedFieldVariantFeatures(pub Vec<Feature>);

/// The features of an unnamed field enum variant's `#[schema(...)]`
/// attributes.
pub struct EnumUnnamedFieldVariantFeatures(pub Vec<Feature>);

/// The features of an `#[into_params(...)]` attribute.
pub struct IntoParamsFeatures(pub Vec<Feature>);

/// The features of a field's `#[param(...)]` attributes.
pub struct FieldParamContainerAttributes(pub Vec<Feature>);

fn append_features(a: Vec<Feature>, b: Vec<Feature>) -> (res: Vec<Feature>)
    ensures
        res@ == a@ + b@,
{
    let mut a = a;
    let mut b = b;
    a.append(&mut b);
    a
}

impl IntoInner<Vec<Feature>> for NamedFieldStructFeatures {
    fn into_inner(self) -> (res: Vec<Feature>)
        ensures
            res == self.0,
    {
        self.0
    }
}

impl Merge<NamedFieldStructFeatures> for NamedFieldStructFeatures {
    fn merge(self, from: NamedFieldStructFeatures) -> (res: NamedFieldStructFeatures)
        ensures
            res.0@ == self.0@ + from.0@,
    {
        NamedFieldStructFeatures(append_features(self.0, from.0))
    }
}

impl IntoInner<Vec<Feature>> for UnnamedFieldStructFeatures {
    fn into_inner(self) -> (res: Vec<Feature>)
        ensures
            res == self.0,
    {
        self.0
    }
}

impl Merge<UnnamedFieldStructFeatures> for UnnamedFieldStructFeatures {
    fn merge(self, from: UnnamedFieldStructFeatures) -> (res: UnnamedFieldStructFeatures)
        ensures
            res.0@ == self.0@ + from.0@,
    {
        UnnamedFieldStructFeatures(append_features(self.0, from.0))
    }
}

impl IntoInner<Vec<Feature>> for EnumFeatures {
    fn into_inner(self) -> (res: Vec<Feature>)
        ensures
            res == self.0,
    {
        self.0
    }
}

impl Merge<EnumFeatures> for EnumFeatures {
    fn merge(self, from: EnumFeatures) -> (res: EnumFeatures)
        ensures
            res.0@ == self.0@ + from.0@,
    {
        EnumFeatures(append_features(self.0, from.0))
    }
}

impl IntoInner<Vec<Feature>> for MixedEnumFeatures {
    fn into_inner(self) -> (res: Vec<Feature>)
        ensures
            res == self.0,
    {
        self.0
    }
}

impl Merge<MixedEnumFeatures> for MixedEnumFeatures {
    fn merge(self, from: MixedEnumFeatures) -> (res: MixedEnumFeatures)
        ensures
            res.0@ == self.0@ + from.0@,
    {
        MixedEnumFeatures(append_features(self.0, from.0))
    }
}

impl IntoInner<Vec<Feature>> for NamedFieldFeatures {
    fn into_inner(self) -> (res: Vec<Feature>)
        ensures
            res == self.0,
    {
        self.0
    }
}

impl Merge<NamedFieldFeatures> for NamedFieldFeatures {
    fn merge(self, from: NamedFieldFeatures) -> (res: NamedFieldFeatures)
        ensures
            res.0@ == self.0@ + from.0@,
    {
        NamedFieldFeatures(append_features(self.0, from.0))
    }
}

impl IntoInner<Vec<Feature>> for EnumNamedFieldVariantFeatures {
    fn into_inner(self) -> (res: Vec<Feature>)
        ensures
            res == self.0,
    {
        self.0
    }
}

impl Merge<EnumNamedFieldVariantFeatures> for EnumNamedFieldVariantFeatures {
    fn merge(self, from: EnumNamedFieldVariantFeatures) -> (res: EnumNamedFieldVariantFeatures)
        ensures
            res.0@ == self.0@ + from.0@,
    {
        EnumNamedFieldVariantFeatures(append_features(self.0, from.0))
    }
}

impl IntoInner<Vec<Feature>> for EnumUnnamedFieldVariantFeatures {
    fn into_inner(self) -> (res: Vec<Feature>)
        ensures
            res == self.0,
    {
        self.0
    }
}

impl Merge<EnumUnnamedFieldVariantFeatures> for EnumUnnamedFieldVariantFeatures {
    fn merge(self, from: EnumUnnamedFieldVariantFeatures) -> (res: EnumUnnamedFieldVariantFeatures)
        ensures
            res.0@ == self.0@ + from.0@,
    {
        EnumUnnamedFieldVariantFeatures(append_features(self.0, from.0))
    }
}

impl IntoInner<Vec<Feature>> for IntoParamsFeatures {
    fn into_inner(self) -> (res: Vec<Feature>)
        ensures
            res == self.0,
    {
        self.0
    }
}

impl Merge<IntoParamsFeatures> for IntoParamsFeatures {
    fn merge(self, from: IntoParamsFeatures) -> (res: IntoParamsFeatures)
        ensures
            res.0@ == self.0@ + from.0@,
    {
        IntoParamsFeatures(append_features(self.0, from.0))
    }
}

impl IntoInner<Vec<Feature>> for FieldParamContainerAttributes {
    fn into_inner(self) -> (res: Vec<Feature>)
        ensures
            res == self.0,
    {
        self.0
    }
}

impl Merge<FieldParamContainerAttributes> for FieldParamContainerAttributes {
    fn merge(self, from: FieldParamContainerAttributes) -> (res: FieldParamContainerAttributes)
        ensures
            res.0@ == self.0@ + from.0@,
    {
        FieldParamContainerAttributes(append_features(self.0, from.0))
    }
}

impl Merge<Vec<Feature>> for Vec<Feature> {
    fn merge(self, from: Vec<Feature>) -> (res: Vec<Feature>)
        ensures
            res@ == self@ + from@,
    {
        append_features(self, from)
    }
}

/// The XML options of a `Vec` and of its items: the wrapping goes to the
/// `Vec`, the rest to the items.
pub open spec fn split_vec_xml(x: crate::xml::XmlV) -> (crate::xml::XmlV, crate::xml::XmlV) {
    (
        crate::xml::XmlV {
            is_wrapped: x.is_wrapped,
            wrap_name: x.wrap_name,
            ..crate::xml::empty_xml()
        },
        crate::xml::XmlV { is_wrapped: false, wrap_name: None, ..x },
    )
}

impl XmlAttr {
    /// Splits the XML options for a field of the type: for a `Vec`, the
    /// wrapping goes to the `Vec` and the rest to its items; for any other
    /// type all go to the value, which must not be wrapped. The options are
    /// taken out of `self`, which is left empty, unless there is an error.
    pub fn split_for_vec(&mut self, generic_type: Option<GenericType>) -> (res: Result<(Option<XmlAttr>, Option<XmlAttr>), Diagnostics>)
        ensures
            match res {
                Ok((v, x)) => {
                    &&& final(self).0@ == crate::xml::empty_xml()
                    &&& x is Some
                    &&& if generic_type == Some(GenericType::Vec) {
                        v is Some && v->Some_0.0@ == split_vec_xml(old(self).0@).0 && x->Some_0.0@
                            == split_vec_xml(old(self).0@).1
                    } else {
                        v is None && x->Some_0.0@ == old(self).0@ && !old(self).0.is_wrapped
                    }
                },
                Err(d) => generic_type != Some(GenericType::Vec) && old(self).0.is_wrapped && *final(self)
                    == *old(self) && d@ == seq![
                    (
                        "cannot use `wrapped` attribute in non slice field type"@,
                        seq![(false, "Try removing `wrapped` attribute or make your field `Vec`"@)],
                    ),
                ],
            },
    {
        let is_vec = match generic_type {
            Some(GenericType::Vec) => true,
            _ => false,
        };
        if is_vec {
            let mut value = crate::xml::Xml::with_wrapped(false, None);
            std::mem::swap(&mut self.0, &mut value);
            let wrapped = value.is_wrapped;
            value.is_wrapped = false;
            let wrap_name = value.wrap_name.take();
            let vec_xml = crate::xml::Xml::with_wrapped(wrapped, wrap_name);
            Ok((Some(XmlAttr(vec_xml)), Some(XmlAttr(value))))
        } else {
            match self.0.validate_xml() {
                Err(d) => Err(d),
                Ok(_) => {
                    let mut value = crate::xml::Xml::with_wrapped(false, None);
                    std::mem::swap(&mut self.0, &mut value);
                    Ok((None, Some(XmlAttr(value))))
                },
            }
        }
    }
}

/// What taking out the `xml` feature for a field of the type does (see
/// `extract_vec_xml_feature`): `before` and `after` are the features
/// before and after, `res` what it gives.
pub open spec fn vec_xml_extracted(
    before: Seq<Feature>,
    generic_type: Option<GenericType>,
    res: Result<Option<Feature>, Diagnostics>,
    after: Seq<Feature>,
) -> bool {
    &&& (!has_kind(before, FeatureKind::XmlAttr) ==> res is Ok && res->Ok_0 is None
            && after == before)
    &&& (has_kind(before, FeatureKind::XmlAttr) ==> {
            let i = first_of_kind(before, FeatureKind::XmlAttr);
            let x = before[i]->XmlAttr_0.0@;
            match res {
                Ok(v) => {
                    &&& after.len() == before.len()
                    &&& forall|j: int|
                        0 <= j < before.len() && j != i ==> #[trigger] after[j]
                            == before[j]
                    &&& after[i] is XmlAttr
                    &&& if generic_type == Some(GenericType::Vec) {
                        &&& v is Some && v->Some_0 is XmlAttr
                        &&& v->Some_0->XmlAttr_0.0@ == split_vec_xml(x).0
                        &&& after[i]->XmlAttr_0.0@ == split_vec_xml(x).1
                    } else {
                        &&& v is None
                        &&& !x.is_wrapped
                        &&& after[i]->XmlAttr_0.0@ == x
                    }
                },
                Err(d) => {
                    &&& generic_type != Some(GenericType::Vec)
                    &&& x.is_wrapped
                    &&& after == before
                    &&& d@ == seq![
                        (
                            "cannot use `wrapped` attribute in non slice field type"@,
                            seq![(false, "Try removing `wrapped` attribute or make your field `Vec`"@)],
                        ),
                    ]
                },
            }
        })
}

/// Splits the first `xml` feature for a field of the type, as
/// `XmlAttr::split_for_vec` does: the feature keeps the options of the value,
/// and the options of the `Vec` are given back as a feature; none where the
/// features have no `xml` feature. An error leaves the features unchanged.
pub fn extract_vec_xml_feature(features: &mut Vec<Feature>, generic_type: Option<GenericType>) -> (res: Result<Option<Feature>, Diagnostics>)
    ensures
        vec_xml_extracted(old(features)@, generic_type, res, final(features)@),
{
    let n = features.len();
    let mut found: Option<usize> = None;
    for k in 0..n
        invariant
            n == features@.len(),
            features@ == old(features)@,
            found is None ==> forall|j: int| 0 <= j < k ==> kind_of(#[trigger] features@[j]) != FeatureKind::XmlAttr,
            found matches Some(f) ==> is_first_of_kind(features@, FeatureKind::XmlAttr, f as int),
    {
        if found.is_none() && features[k].kind() == FeatureKind::XmlAttr {
            found = Some(k);
        }
    }
    let i = match found {
        None => {
            return Ok(None);
        },
        Some(i) => i,
    };
    proof {
        lemma_first_of_kind(features@, FeatureKind::XmlAttr, i as int);
    }
    let ghost before = features@;
    let f = features.remove(i);
    match f {
        Feature::XmlAttr(mut x) => {
            match x.split_for_vec(generic_type) {
                Ok((v, value)) => {
                    let kept = match value {
                        Some(val) => val,
                        None => x,
                    };
                    features.insert(i, Feature::XmlAttr(kept));
                    proof {
                        assert forall|j: int| 0 <= j < before.len() && j != i implies #[trigger] features@[j]
                            == before[j] by {
                            if j < i {
                                assert(features@[j] == before.remove(i as int)[j]);
                            } else {
                                assert(features@[j] == before.remove(i as int)[j - 1]);
                            }
                        }
                    }
                    match v {
                        Some(vx) => Ok(Some(Feature::XmlAttr(vx))),
                        None => Ok(None),
                    }
                },
                Err(d) => {
                    features.insert(i, Feature::XmlAttr(x));
                    proof {
                        assert(features@ =~= before);
                    }
                    Err(d)
                },
            }
        },
        other => {
            features.insert(i, other);
            proof {
                assert(features@ =~= before);
            }
            Ok(None)
        },
    }
}

/// Splitting the XML options of a `Vec` loses nothing: the wrapping of the
/// `Vec` put back on the options of the items gives the options again, and
/// the `Vec` gets nothing but the wrapping.
pub proof fn lemma_split_vec_xml_keeps_options(x: crate::xml::XmlV)
    ensures
        ({
            let (v, item) = split_vec_xml(x);
            &&& (crate::xml::XmlV { is_wrapped: v.is_wrapped, wrap_name: v.wrap_name, ..item }) == x
            &&& v.name is None && v.namespace is None && v.prefix is None && !v.is_attribute
            &&& !item.is_wrapped && item.wrap_name is None
        }),
{
}

} // verus!
