//! How each kind of feature goes into a schema's builder: by a builder
//! method that takes its value, by its own value, by nothing, or not at
//! all (an error: the feature is read elsewhere).
use vstd::prelude::*;
use vstd::string::StringExecFns;

use crate::diagnostics::Diagnostics;
use crate::features::FeatureKind;

verus! {

/// How a feature goes into a schema's builder.
pub enum FeatureTokens {
    /// A call of the builder method of the name with the feature's value.
    Method(String),
    /// The feature's own value (the name of a `rename`, the call of a
    /// `schema_with` function).
    Value,
    /// Nothing (a `bound` is read for the impl blocks; an `inline` by the
    /// schema).
    Nothing,
}

/// The plain-value view of [`FeatureTokens`].
pub enum FeatureTokensV {
    Method(Seq<char>),
    Value,
    Nothing,
}

impl View for FeatureTokens {
    type V = FeatureTokensV;

    open spec fn view(&self) -> FeatureTokensV {
        match self {
            FeatureTokens::Method(m) => FeatureTokensV::Method(m@),
            FeatureTokens::Value => FeatureTokensV::Value,
            FeatureTokens::Nothing => FeatureTokensV::Nothing,
        }
    }
}

/// The builder method that takes a feature of the kind, for the kinds
/// that have one.
pub open spec fn builder_method(k: FeatureKind) -> Option<Seq<char>> {
    match k {
        FeatureKind::Default => Some("default"@),
        FeatureKind::Example => Some("example"@),
        FeatureKind::Examples => Some("examples"@),
        FeatureKind::XmlAttr => Some("xml"@),
        FeatureKind::Format => Some("format"@),
        FeatureKind::WriteOnly => Some("write_only"@),
        FeatureKind::ReadOnly => Some("read_only"@),
        FeatureKind::Title => Some("title"@),
        FeatureKind::Style => Some("style"@),
        FeatureKind::ParameterIn => Some("parameter_in"@),
        FeatureKind::MultipleOf => Some("multiple_of"@),
        FeatureKind::AllowReserved => Some("allow_reserved"@),
        FeatureKind::Explode => Some("explode"@),
        FeatureKind::Maximum => Some("maximum"@),
        FeatureKind::Minimum => Some("minimum"@),
        FeatureKind::ExclusiveMaximum => Some("exclusive_maximum"@),
        FeatureKind::ExclusiveMinimum => Some("exclusive_minimum"@),
        FeatureKind::MaxLength => Some("max_length"@),
        FeatureKind::MinLength => Some("min_length"@),
        FeatureKind::Pattern => Some("pattern"@),
        FeatureKind::MaxItems => Some("max_items"@),
        FeatureKind::MinItems => Some("min_items"@),
        FeatureKind::MaxProperties => Some("max_properties"@),
        FeatureKind::MinProperties => Some("min_properties"@),
        FeatureKind::Description => Some("description"@),
        FeatureKind::Deprecated => Some("deprecated"@),
        FeatureKind::AdditionalProperties => Some("additional_properties"@),
        FeatureKind::ContentEncoding => Some("content_encoding"@),
        FeatureKind::ContentMediaType => Some("content_media_type"@),
        FeatureKind::Discriminator => Some("discriminator"@),
        FeatureKind::Required => Some("required"@),
        FeatureKind::Extensions => Some("extensions"@),
        _ => None,
    }
}

/// The error for a feature of the kind that no builder takes: its message
/// and, for some, a help.
pub open spec fn feature_tokens_error(k: FeatureKind) -> Option<(Seq<char>, Option<Seq<char>>)> {
    match k {
        FeatureKind::Nullable => Some(("Nullable does not support `ToTokens`"@, None)),
        FeatureKind::RenameAll => Some(("RenameAll feature does not support `ToTokens`"@, None)),
        FeatureKind::ValueType => Some(
            (
                "ValueType feature does not support `ToTokens`"@,
                Some(
                    "ValueType is supposed to be used with `TypeTree` in same manner as a resolved struct/field type."@,
                ),
            ),
        ),
        FeatureKind::NoRecursion => Some(("NoRecursion does not support `ToTokens`"@, None)),
        FeatureKind::IntoParamsNames => Some(
            (
                "Names feature does not support `ToTokens`"@,
                Some(
                    "Names is only used with IntoParams to artificially give names for unnamed struct type `IntoParams`."@,
                ),
            ),
        ),
        FeatureKind::As => Some(("As does not support `ToTokens`"@, None)),
        FeatureKind::Ignore => Some(("Ignore does not support `ToTokens`"@, None)),
        _ => None,
    }
}

/// How a feature of the kind goes into a builder: its builder method;
/// its own value for `rename` and `schema_with`; nothing for `bound` and
/// `inline`.
pub open spec fn spec_feature_tokens(k: FeatureKind) -> FeatureTokensV {
    match builder_method(k) {
        Some(m) => FeatureTokensV::Method(m),
        None => if k == FeatureKind::Rename || k == FeatureKind::SchemaWith {
            FeatureTokensV::Value
        } else {
            FeatureTokensV::Nothing
        },
    }
}

fn error_with(message: &str, help: Option<&str>) -> (res: Diagnostics)
    ensures
        res@ == match help {
            Some(h) => seq![(message@, seq![(false, h@)])],
            None => seq![(message@, Seq::<(bool, Seq<char>)>::empty())],
        },
{
    let d = Diagnostics::new(String::from_str(message));
    match help {
        Some(h) => {
            let hs = String::from_str(h);
            let d1 = d.help(hs);
            proof {
                let s1 = d1@[0].1;
                let k1 = choose|k: int| 0 <= k <= 0 && s1 == Seq::<(bool, Seq<char>)>::empty().insert(k, (false, hs@));
                assert(s1 =~= seq![(false, hs@)]);
                assert(d1@ =~= seq![(message@, seq![(false, h@)])]);
            }
            d1
        },
        None => d,
    }
}

/// How a feature of the kind goes into a schema's builder, as
/// `spec_feature_tokens` says; an error, as `feature_tokens_error` says,
/// for the kinds that are read elsewhere.
pub fn feature_tokens(kind: FeatureKind) -> (res: Result<FeatureTokens, Diagnostics>)
    ensures
        match feature_tokens_error(kind) {
            Some((m, h)) => res matches Err(d) && d@ == match h {
                Some(h) => seq![(m, seq![(false, h)])],
                None => seq![(m, Seq::<(bool, Seq<char>)>::empty())],
            },
            None => res matches Ok(t) && t@ == spec_feature_tokens(kind),
        },
{
    let method = match kind {
        FeatureKind::Default => "default",
        FeatureKind::Example => "example",
        FeatureKind::Examples => "examples",
        FeatureKind::XmlAttr => "xml",
        FeatureKind::Format => "format",
        FeatureKind::WriteOnly => "write_only",
        FeatureKind::ReadOnly => "read_only",
        FeatureKind::Title => "title",
        FeatureKind::Style => "style",
        FeatureKind::ParameterIn => "parameter_in",
        FeatureKind::MultipleOf => "multiple_of",
        FeatureKind::AllowReserved => "allow_reserved",
        FeatureKind::Explode => "explode",
        FeatureKind::Maximum => "maximum",
        FeatureKind::Minimum => "minimum",
        FeatureKind::ExclusiveMaximum => "exclusive_maximum",
        FeatureKind::ExclusiveMinimum => "exclusive_minimum",
        FeatureKind::MaxLength => "max_length",
        FeatureKind::MinLength => "min_length",
        FeatureKind::Pattern => "pattern",
        FeatureKind::MaxItems => "max_items",
        FeatureKind::MinItems => "min_items",
        FeatureKind::MaxProperties => "max_properties",
        FeatureKind::MinProperties => "min_properties",
        FeatureKind::Description => "description",
        FeatureKind::Deprecated => "deprecated",
        FeatureKind::AdditionalProperties => "additional_properties",
        FeatureKind::ContentEncoding => "content_encoding",
        FeatureKind::ContentMediaType => "content_media_type",
        FeatureKind::Discriminator => "discriminator",
        FeatureKind::Required => "required",
        FeatureKind::Extensions => "extensions",
        FeatureKind::Rename | FeatureKind::SchemaWith => {
            return Ok(FeatureTokens::Value);
        },
        FeatureKind::Bound | FeatureKind::Inline => {
            return Ok(FeatureTokens::Nothing);
        },
        FeatureKind::Nullable => {
            return Err(error_with("Nullable does not support `ToTokens`", None));
        },
        FeatureKind::RenameAll => {
            return Err(error_with("RenameAll feature does not support `ToTokens`", None));
        },
        FeatureKind::ValueType => {
            return Err(
                error_with(
                    "ValueType feature does not support `ToTokens`",
                    Some(
                        "ValueType is supposed to be used with `TypeTree` in same manner as a resolved struct/field type.",
                    ),
                ),
            );
        },
        FeatureKind::NoRecursion => {
            return Err(error_with("NoRecursion does not support `ToTokens`", None));
        },
        FeatureKind::IntoParamsNames => {
            return Err(
                error_with(
                    "Names feature does not support `ToTokens`",
                    Some(
                        "Names is only used with IntoParams to artificially give names for unnamed struct type `IntoParams`.",
                    ),
                ),
            );
        },
        FeatureKind::As => {
            return Err(error_with("As does not support `ToTokens`", None));
        },
        FeatureKind::Ignore => {
            return Err(error_with("Ignore does not support `ToTokens`", None));
        },
    };
    Ok(FeatureTokens::Method(String::from_str(method)))
}

} // verus!
