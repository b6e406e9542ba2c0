//! The checks of a type that derives `IntoParams`: which of its fields give
//! parameters, and the names of unnamed fields.
use vstd::prelude::*;
use vstd::multiset::Multiset;
use vstd::string::StringExecFns;

use crate::diagnostics::Diagnostics;
use crate::features::{
    has_feature_kind, has_kind, kind_of, pop_by, spec_pop_by, Feature, FeatureKind, ParameterInKind, ParameterStyle, RenameAll,
    Style,
};
use crate::named_struct::{unraw, unraw_name};
use crate::rename::{slices_first_char, RenameRule};
use crate::serde_attr::{
    rename, rename_all_rule, rename_needs_first_char, spec_rename_value, variant_rename_rule,
    RenameTarget, SerdeContainer, SerdeContainerView, SerdeValue,
};
use crate::rocket::{decimal, decimal_chars};
use crate::text::{chars_of, extend_chars, string_from_chars};

verus! {

/// The shape of the type that derives `IntoParams`.
#[derive(PartialEq, Eq, Structural, Clone, Copy, Debug)]
pub enum DataShape {
    /// A struct with the number of named fields.
    Named(usize),
    /// A struct with the number of unnamed fields.
    Unnamed(usize),
    /// A unit struct.
    Unit,
    /// An enum or a union.
    NotStruct,
}

/// Which fields give the parameters.
#[derive(PartialEq, Eq, Structural, Clone, Copy, Debug)]
pub enum FieldsKind {
    Named,
    Unnamed,
}

/// The error for names that are not as many as the unnamed fields.
pub open spec fn names_count_error(names: nat, fields: nat, ident: Seq<char>) -> (Seq<char>, Seq<(bool, Seq<char>)>) {
    (
        "declared names amount '"@ + decimal(names) + "' does not match to the unnamed fields amount '"@
            + decimal(fields) + "' in type: "@ + ident,
        seq![
            (false, "Did you forget to add a field name to `#[into_params(names(... , \"field_name\"))]`"@),
            (false, "Or have you added extra name but haven't defined a type?"@),
        ],
    )
}

/// The error for unnamed fields without names.
pub open spec fn missing_names_error(ident: Seq<char>) -> (Seq<char>, Seq<(bool, Seq<char>)>) {
    (
        "struct with unnamed fields must have explicit name declarations."@,
        seq![(false, "Try defining `#[into_params(names(...))]` over your type: "@ + ident)],
    )
}

/// What checking the names of unnamed fields gives: none where there are as
/// many names as fields, else the error.
pub open spec fn spec_validate_unnamed(ident: Seq<char>, fields: nat, names: Option<nat>) -> Option<(Seq<char>, Seq<(bool, Seq<char>)>)> {
    match names {
        Some(n) => if n != fields {
            Some(names_count_error(n, fields, ident))
        } else {
            None
        },
        None => Some(missing_names_error(ident)),
    }
}

/// The view of optional names: how many there are.
pub open spec fn names_count(names: Option<&Vec<String>>) -> Option<nat> {
    match names {
        Some(v) => Some(v@.len()),
        None => None,
    }
}

/// Checks the names declared for the unnamed fields of the type `ident`:
/// there must be names, as many as there are fields.
pub fn validate_unnamed_field_names(ident: &str, unnamed_fields: usize, field_names: Option<&Vec<String>>) -> (res: Option<Diagnostics>)
    ensures
        match res {
            Some(d) => spec_validate_unnamed(ident@, unnamed_fields as nat, names_count(field_names))
                == Some(d@[0]) && d@.len() == 1,
            None => spec_validate_unnamed(ident@, unnamed_fields as nat, names_count(field_names)) is None,
        },
{
    match field_names {
        Some(names) => {
            if names.len() != unnamed_fields {
                let mut msg = chars_of("declared names amount '");
                let a = decimal_chars(names.len());
                extend_chars(&mut msg, &a);
                let mid = chars_of("' does not match to the unnamed fields amount '");
                extend_chars(&mut msg, &mid);
                let b = decimal_chars(unnamed_fields);
                extend_chars(&mut msg, &b);
                let tail = chars_of("' in type: ");
                extend_chars(&mut msg, &tail);
                let id = chars_of(ident);
                extend_chars(&mut msg, &id);
                let h1 = String::from_str(
                    "Did you forget to add a field name to `#[into_params(names(... , \"field_name\"))]`",
                );
                let h2 = String::from_str("Or have you added extra name but haven't defined a type?");
                let msg_s = string_from_chars(&msg);
                let d1 = Diagnostics::new(msg_s).help(h1);
                proof {
                    let s1 = d1@[0].1;
                    let k1 = choose|k: int|
                        0 <= k <= 0 && s1 == Seq::<(bool, Seq<char>)>::empty().insert(k, (false, h1@));
                    assert(s1 =~= seq![(false, h1@)]);
                }
                let d = d1.help(h2);
                proof {
                    reveal_strlit("Did you forget to add a field name to `#[into_params(names(... , \"field_name\"))]`");
                    reveal_strlit("Or have you added extra name but haven't defined a type?");
                    let s = d@[0].1;
                    assert(h1@[0] == 'D' && h2@[0] == 'O');
                    assert(crate::text::lex_lt(h1@, h2@));
                    let k = choose|k: int|
                        0 <= k <= 1 && s == d1@[0].1.insert(k, (false, h2@));
                    if k == 0 {
                        assert(s[0] == (false, h2@) && s[1] == (false, h1@));
                        assert(!crate::diagnostics::suggestion_lt(s[1], s[0]));
                        assert(false);
                    }
                    assert(s =~= seq![(false, h1@), (false, h2@)]);
                    assert(d@[0].0 =~= names_count_error(names@.len(), unnamed_fields as nat, ident@).0);
                }
                Some(d)
            } else {
                None
            }
        },
        None => {
            let mut help = chars_of("Try defining `#[into_params(names(...))]` over your type: ");
            let id = chars_of(ident);
            extend_chars(&mut help, &id);
            let hs = string_from_chars(&help);
            let d = Diagnostics::new(
                String::from_str("struct with unnamed fields must have explicit name declarations."),
            ).help(hs);
            proof {
                let s = d@[0].1;
                let k = choose|k: int|
                    0 <= k <= 0 && s == Seq::<(bool, Seq<char>)>::empty().insert(k, (false, hs@));
                assert(s =~= seq![(false, hs@)]);
            }
            Some(d)
        },
    }
}

/// What choosing the fields of the type gives: which fields, or the error.
pub open spec fn spec_struct_fields(ident: Seq<char>, data: DataShape, names: Option<nat>) -> Result<FieldsKind, (Seq<char>, Seq<(bool, Seq<char>)>)> {
    match data {
        DataShape::Named(_) => if names is Some {
            Err(
                (
                    "`#[into_params(names(...))]` is not supported attribute on a struct with named fields"@,
                    Seq::empty(),
                ),
            )
        } else {
            Ok(FieldsKind::Named)
        },
        DataShape::Unnamed(n) => match spec_validate_unnamed(ident, n as nat, names) {
            None => Ok(FieldsKind::Unnamed),
            Some(e) => Err(e),
        },
        DataShape::Unit => Err(("Unit type struct is not supported"@, Seq::empty())),
        DataShape::NotStruct => Err(("Only struct type is supported"@, Seq::empty())),
    }
}

/// Chooses the fields whose parameters the type `ident` gives: the named
/// fields of a struct that declares no names, or the unnamed fields of a
/// struct that declares as many names; any other type is an error.
pub fn get_struct_fields(ident: &str, data: DataShape, field_names: Option<&Vec<String>>) -> (res: Result<FieldsKind, Diagnostics>)
    ensures
        match res {
            Ok(k) => spec_struct_fields(ident@, data, names_count(field_names)) == Ok::<
                FieldsKind,
                (Seq<char>, Seq<(bool, Seq<char>)>),
            >(k),
            Err(d) => d@.len() == 1 && spec_struct_fields(ident@, data, names_count(field_names))
                == Err::<FieldsKind, (Seq<char>, Seq<(bool, Seq<char>)>)>(d@[0]),
        },
{
    match data {
        DataShape::Named(_) => {
            if field_names.is_some() {
                let d = Diagnostics::new(
                    String::from_str(
                        "`#[into_params(names(...))]` is not supported attribute on a struct with named fields",
                    ),
                );
                Err(d)
            } else {
                Ok(FieldsKind::Named)
            }
        },
        DataShape::Unnamed(n) => match validate_unnamed_field_names(ident, n, field_names) {
            None => Ok(FieldsKind::Unnamed),
            Some(d) => Err(d),
        },
        DataShape::Unit => Err(Diagnostics::new(String::from_str("Unit type struct is not supported"))),
        DataShape::NotStruct => Err(Diagnostics::new(String::from_str("Only struct type is supported"))),
    }
}

/// Whether a feature of the kind describes a parameter's schema rather
/// than the parameter itself.
pub open spec fn is_schema_feature_kind(k: FeatureKind) -> bool {
    match k {
        FeatureKind::Inline | FeatureKind::Format | FeatureKind::Default | FeatureKind::WriteOnly
        | FeatureKind::ReadOnly | FeatureKind::Nullable | FeatureKind::XmlAttr
        | FeatureKind::MultipleOf | FeatureKind::Maximum | FeatureKind::Minimum
        | FeatureKind::ExclusiveMaximum | FeatureKind::ExclusiveMinimum | FeatureKind::MaxLength
        | FeatureKind::MinLength | FeatureKind::Pattern | FeatureKind::MaxItems
        | FeatureKind::MinItems | FeatureKind::AdditionalProperties => true,
        _ => false,
    }
}

/// The field's features with the container's style added where the field
/// has no style of its own.
pub open spec fn with_container_style(fs: Seq<Feature>, style: Option<ParameterStyle>) -> Seq<Feature> {
    match style {
        Some(s) => if has_kind(fs, FeatureKind::Style) {
            fs
        } else {
            fs.push(Feature::Style(Style(s)))
        },
        None => fs,
    }
}

/// The features that describe the schema, in order.
pub open spec fn schema_features_of(fs: Seq<Feature>) -> Seq<Feature> {
    fs.filter(|f: Feature| is_schema_feature_kind(kind_of(f)))
}

/// The features that describe the parameter, in order.
pub open spec fn param_features_of(fs: Seq<Feature>) -> Seq<Feature> {
    fs.filter(|f: Feature| !is_schema_feature_kind(kind_of(f)))
}

/// Splits a field's features into those of its schema and those of the
/// parameter, in order, after adding the container's style where the field
/// has none.
pub fn resolve_field_features(field_features: Vec<Feature>, container_style: Option<ParameterStyle>) -> (res: (Vec<Feature>, Vec<Feature>))
    ensures
        res.0@ == schema_features_of(with_container_style(field_features@, container_style)),
        res.1@ == param_features_of(with_container_style(field_features@, container_style)),
{
    let mut features = field_features;
    if let Some(style) = container_style {
        if !has_feature_kind(&features, FeatureKind::Style) {
            features.push(Feature::Style(Style(style)));
        }
    }
    let ghost all = features@;
    let mut schema_features: Vec<Feature> = Vec::new();
    let mut param_features: Vec<Feature> = Vec::new();
    let n = features.len();
    let mut k: usize = 0;
    proof {
        assert(all.take(0) =~= Seq::<Feature>::empty());
        assert(all.skip(0) =~= all);
        reveal_with_fuel(Seq::filter, 1);
    }
    while k < n
        invariant
            k <= n,
            n == all.len(),
            features@ == all.skip(k as int),
            schema_features@ == schema_features_of(all.take(k as int)),
            param_features@ == param_features_of(all.take(k as int)),
        decreases n - k,
    {
        let f = features.remove(0);
        proof {
            assert(f == all[k as int]);
            assert(all.skip(k as int).remove(0) =~= all.skip(k + 1));
            assert(all.take(k + 1).drop_last() =~= all.take(k as int));
            assert(all.take(k + 1).last() == f);
            reveal_with_fuel(Seq::filter, 1);
        }
        if is_schema_feature(&f) {
            schema_features.push(f);
        } else {
            param_features.push(f);
        }
        k = k + 1;
    }
    proof {
        assert(all.take(n as int) =~= all);
    }
    (schema_features, param_features)
}

/// Whether the feature describes a parameter's schema.
fn is_schema_feature(f: &Feature) -> (res: bool)
    ensures
        res == is_schema_feature_kind(kind_of(*f)),
{
    match f.kind() {
        FeatureKind::Inline | FeatureKind::Format | FeatureKind::Default | FeatureKind::WriteOnly
        | FeatureKind::ReadOnly | FeatureKind::Nullable | FeatureKind::XmlAttr
        | FeatureKind::MultipleOf | FeatureKind::Maximum | FeatureKind::Minimum
        | FeatureKind::ExclusiveMaximum | FeatureKind::ExclusiveMinimum | FeatureKind::MaxLength
        | FeatureKind::MinLength | FeatureKind::Pattern | FeatureKind::MaxItems
        | FeatureKind::MinItems | FeatureKind::AdditionalProperties => true,
        _ => false,
    }
}


/// The features of the two sides together are the features split, each
/// once: no feature is lost or repeated.
pub proof fn lemma_features_split_partition(fs: Seq<Feature>)
    ensures
        schema_features_of(fs).to_multiset().add(param_features_of(fs).to_multiset())
            =~= fs.to_multiset(),
        schema_features_of(fs).len() + param_features_of(fs).len() == fs.len(),
    decreases fs.len(),
{
    broadcast use vstd::seq_lib::group_to_multiset_ensures;
    reveal_with_fuel(Seq::filter, 1);
    if fs.len() == 0 {
        assert(schema_features_of(fs) =~= Seq::<Feature>::empty());
        assert(param_features_of(fs) =~= Seq::<Feature>::empty());
        assert(fs.to_multiset() =~= Multiset::<Feature>::empty());
    } else {
        let front = fs.drop_last();
        let x = fs.last();
        lemma_features_split_partition(front);
        assert(front.push(x) =~= fs);
        let a = schema_features_of(front);
        let b = param_features_of(front);
        if is_schema_feature_kind(kind_of(x)) {
            assert(schema_features_of(fs) == a.push(x));
            assert(param_features_of(fs) == b);
            assert(a.push(x).to_multiset() =~= a.to_multiset().insert(x));
        } else {
            assert(schema_features_of(fs) == a);
            assert(param_features_of(fs) == b.push(x));
            assert(b.push(x).to_multiset() =~= b.to_multiset().insert(x));
        }
        assert(fs.to_multiset() =~= front.to_multiset().insert(x));
    }
}

/// A field of a type that derives `IntoParams`: its identifier (none for an
/// unnamed field), its serde rules, its features, and whether the type of
/// its schema is an `Option` (that of its configured alias where there is
/// one: see `alias::schema_is_option`).
pub struct ParamField {
    pub ident: Option<String>,
    pub rules: SerdeValue,
    pub features: Vec<Feature>,
    pub is_option: bool,
}

/// What a field's parameter is made of: its name; its `ignore`,
/// `schema_with` and `value_type` features; whether it is required (none
/// where `schema_with` gives its schema); the features of its schema; and
/// the other features of the parameter; and whether an `Option` makes its
/// schema nullable (not for a query parameter).
pub struct ParamLayout {
    pub name: String,
    pub ignore: Option<Feature>,
    pub schema_with: Option<Feature>,
    pub value_type: Option<Feature>,
    pub required: Option<bool>,
    pub schema_features: Vec<Feature>,
    pub param_features: Vec<Feature>,
    pub option_is_nullable: bool,
}

/// The view of a [`ParamLayout`].
pub struct ParamLayoutV {
    pub name: Seq<char>,
    pub ignore: Option<Feature>,
    pub schema_with: Option<Feature>,
    pub value_type: Option<Feature>,
    pub required: Option<bool>,
    pub schema_features: Seq<Feature>,
    pub param_features: Seq<Feature>,
    pub option_is_nullable: bool,
}

/// The view of a layout.
pub open spec fn param_layout_view(l: ParamLayout) -> ParamLayoutV {
    ParamLayoutV {
        name: l.name@,
        ignore: l.ignore,
        schema_with: l.schema_with,
        value_type: l.value_type,
        required: l.required,
        schema_features: l.schema_features@,
        param_features: l.param_features@,
        option_is_nullable: l.option_is_nullable,
    }
}

/// The explicit rename of a parameter: the serde `rename`, else the value
/// of the `rename` feature.
pub open spec fn param_rename_to(serde_rename: Option<Seq<char>>, feature: Option<Feature>) -> Option<Seq<char>> {
    match serde_rename {
        Some(r) => Some(r),
        None => match feature {
            Some(Feature::Rename(r)) => Some(r.0@),
            _ => None,
        },
    }
}

/// The parameter of a field, given the name that the container gives it
/// (for an unnamed field): its name is its identifier, else that name,
/// without the `r#` of a raw identifier, then renamed; `None` where there
/// is no name.
pub open spec fn spec_param(
    f: ParamField,
    container_name: Option<Seq<char>>,
    style: Option<ParameterStyle>,
    parameter_in: Option<ParameterInKind>,
    c: SerdeContainerView,
    rule: Option<RenameRule>,
) -> Option<ParamLayoutV> {
    let raw = match f.ident {
        Some(i) => Some(i@),
        None => container_name,
    };
    match raw {
        None => None,
        Some(raw) => {
            let n0 = unraw(raw);
            let w = with_container_style(f.features@, style);
            let sf = schema_features_of(w);
            let (ignore, p1) = spec_pop_by(param_features_of(w), FeatureKind::Ignore);
            let (rn, p2) = spec_pop_by(p1, FeatureKind::Rename);
            let name = match spec_rename_value(
                RenameTarget::Field,
                n0,
                param_rename_to(f.rules@.rename, rn),
                variant_rename_rule(c, rule),
            ) {
                Some(x) => x,
                None => n0,
            };
            let (schema_with, p3) = spec_pop_by(p2, FeatureKind::SchemaWith);
            if schema_with is Some {
                Some(
                    ParamLayoutV {
                        name,
                        ignore,
                        schema_with,
                        value_type: None,
                        required: None,
                        schema_features: sf,
                        param_features: p3,
                        option_is_nullable: parameter_in != Some(ParameterInKind::Query),
                    },
                )
            } else {
                let (value_type, p4) = spec_pop_by(p3, FeatureKind::ValueType);
                let (rq, p5) = spec_pop_by(p4, FeatureKind::Required);
                let required = match rq {
                    Some(Feature::Required(r)) => r.0,
                    _ => !f.is_option && (!f.rules.skip_serializing_if && !f.rules.double_option && !(c.default
                        || f.rules.default)),
                };
                Some(
                    ParamLayoutV {
                        name,
                        ignore,
                        schema_with: None,
                        value_type,
                        required: Some(required),
                        schema_features: sf,
                        param_features: p5,
                        option_is_nullable: parameter_in != Some(ParameterInKind::Query),
                    },
                )
            }
        },
    }
}

/// Whether renaming the parameter reads no first character of an empty
/// name.
pub open spec fn param_rename_ok(
    f: ParamField,
    container_name: Option<Seq<char>>,
    style: Option<ParameterStyle>,
    c: SerdeContainerView,
    rule: Option<RenameRule>,
) -> bool {
    let raw = match f.ident {
        Some(i) => Some(i@),
        None => container_name,
    };
    match raw {
        None => true,
        Some(raw) => {
            let w = with_container_style(f.features@, style);
            let (_, p1) = spec_pop_by(param_features_of(w), FeatureKind::Ignore);
            let (rn, _) = spec_pop_by(p1, FeatureKind::Rename);
            (match param_rename_to(f.rules@.rename, rn) {
                Some(t) => t.len() == 0,
                None => true,
            }) ==> (match variant_rename_rule(c, rule) {
                Some(r) => rename_needs_first_char(RenameTarget::Field, r) ==> slices_first_char(unraw(raw)),
                None => true,
            })
        },
    }
}

/// The error for an unnamed field without a name.
pub open spec fn no_name_error() -> Seq<(Seq<char>, Seq<(bool, Seq<char>)>)> {
    seq![
        (
            "No name specified for unnamed field."@,
            seq![(false, "Try adding #[into_params(names(...))] container attribute to specify the name for this field"@)],
        ),
    ]
}

/// Makes the parameter of a field: names it (its identifier, else the name
/// the container gives it, renamed by serde's `rename`, the `rename`
/// feature, serde's `rename_all` or the container's `rename_all`), splits
/// its features between the parameter and its schema, and decides whether
/// it is required (its `required` feature, else where its type is no
/// `Option` and serde requires it) unless `schema_with` gives its schema.
pub fn param_layout(
    field: ParamField,
    container_name: Option<&String>,
    style: Option<ParameterStyle>,
    parameter_in: Option<ParameterInKind>,
    serde_container: &SerdeContainer,
    rename_all: Option<&RenameAll>,
) -> (res: Result<ParamLayout, Diagnostics>)
    requires
        param_rename_ok(
            field,
            match container_name {
                Some(n) => Some(n@),
                None => None,
            },
            style,
            serde_container@,
            rename_all_rule(rename_all),
        ),
    ensures
        match res {
            Ok(l) => spec_param(
                field,
                match container_name {
                    Some(n) => Some(n@),
                    None => None,
                },
                style,
                parameter_in,
                serde_container@,
                rename_all_rule(rename_all),
            ) == Some(param_layout_view(l)),
            Err(d) => spec_param(
                field,
                match container_name {
                    Some(n) => Some(n@),
                    None => None,
                },
                style,
                parameter_in,
                serde_container@,
                rename_all_rule(rename_all),
            ) is None && d@ == no_name_error(),
        },
{
    let ParamField { ident, rules, features, is_option } = field;
    let raw = match ident {
        Some(i) => i,
        None => match container_name {
            Some(n) => n.clone(),
            None => {
                let h = String::from_str(
                    "Try adding #[into_params(names(...))] container attribute to specify the name for this field",
                );
                let d = Diagnostics::new(String::from_str("No name specified for unnamed field.")).help(h);
                proof {
                    let s = d@[0].1;
                    let k = choose|k: int|
                        0 <= k <= 0 && s == Seq::<(bool, Seq<char>)>::empty().insert(k, (false, h@));
                    assert(s =~= seq![(false, h@)]);
                    assert(d@ =~= no_name_error());
                }
                return Err(d);
            },
        },
    };
    let name0 = unraw_name(raw.as_str());
    let (schema_features, mut param_features) = resolve_field_features(features, style);
    let ignore = pop_by(&mut param_features, FeatureKind::Ignore);
    let rn = pop_by(&mut param_features, FeatureKind::Rename);
    let rename_to: Option<String> = match &rules.rename {
        Some(r) => Some(r.clone()),
        None => match rn {
            Some(Feature::Rename(r)) => Some(r.into_value()),
            _ => None,
        },
    };
    let rule: Option<RenameRule> = match serde_container.rename_all {
        Some(r) => Some(r),
        None => match rename_all {
            Some(ra) => Some(*ra.as_rename_rule()),
            None => None,
        },
    };
    let name = match rename(RenameTarget::Field, name0.as_str(), rename_to, rule) {
        Some(r) => r,
        None => name0,
    };
    let option_is_nullable = match parameter_in {
        Some(ParameterInKind::Query) => false,
        _ => true,
    };
    let schema_with = pop_by(&mut param_features, FeatureKind::SchemaWith);
    if schema_with.is_some() {
        return Ok(
            ParamLayout {
                name,
                ignore,
                schema_with,
                value_type: None,
                required: None,
                schema_features,
                param_features,
                option_is_nullable,
            },
        );
    }
    let value_type = pop_by(&mut param_features, FeatureKind::ValueType);
    let rq = pop_by(&mut param_features, FeatureKind::Required);
    let required = match rq {
        Some(Feature::Required(r)) => r.0,
        _ => !is_option && crate::serde_attr::is_required(&rules, serde_container),
    };
    Ok(
        ParamLayout {
            name,
            ignore,
            schema_with: None,
            value_type,
            required: Some(required),
            schema_features,
            param_features,
            option_is_nullable,
        },
    )
}

/// The name that the container's names give the field at position `i`.
pub open spec fn name_at(names: Option<Seq<Seq<char>>>, i: int) -> Option<Seq<char>> {
    match names {
        Some(ns) => if 0 <= i < ns.len() {
            Some(ns[i])
        } else {
            None
        },
        None => None,
    }
}

/// The error for a field beyond the container's names.
pub open spec fn missing_name_error(i: nat) -> Seq<(Seq<char>, Seq<(bool, Seq<char>)>)> {
    seq![
        (
            "There is no name specified in the names(...) container attribute for tuple struct field "@
                + decimal(i),
            Seq::empty(),
        ),
    ]
}

/// The parameters of the first `n` fields in order: fields that serde
/// skips give none; a field beyond the container's names, or without a
/// name, is an error.
pub open spec fn params_upto(
    fs: Seq<ParamField>,
    n: nat,
    names: Option<Seq<Seq<char>>>,
    style: Option<ParameterStyle>,
    parameter_in: Option<ParameterInKind>,
    c: SerdeContainerView,
    rule: Option<RenameRule>,
) -> Result<Seq<ParamLayoutV>, Seq<(Seq<char>, Seq<(bool, Seq<char>)>)>>
    decreases n,
{
    if n == 0 {
        Ok(Seq::empty())
    } else {
        match params_upto(fs, (n - 1) as nat, names, style, parameter_in, c, rule) {
            Err(e) => Err(e),
            Ok(front) => {
                let i = n - 1;
                let f = fs[i];
                if f.rules.skip {
                    Ok(front)
                } else if names is Some && name_at(names, i) is None {
                    Err(missing_name_error(i as nat))
                } else {
                    match spec_param(f, name_at(names, i), style, parameter_in, c, rule) {
                        Some(p) => Ok(front.push(p)),
                        None => Err(no_name_error()),
                    }
                }
            },
        }
    }
}

/// The error for a `param` attribute on the type.
pub open spec fn param_attr_error() -> Seq<(Seq<char>, Seq<(bool, Seq<char>)>)> {
    seq![("found `param` attribute in unsupported context"@, seq![(false, "Did you mean `into_params`?"@)])]
}

/// The parameters of a type that derives `IntoParams`, or its error: a
/// `param` attribute on the type, a type whose fields give no parameters,
/// then the error of the first field that has one.
pub open spec fn spec_into_params(
    ident: Seq<char>,
    has_param_attr: bool,
    data: DataShape,
    fs: Seq<ParamField>,
    names: Option<Seq<Seq<char>>>,
    style: Option<ParameterStyle>,
    parameter_in: Option<ParameterInKind>,
    c: SerdeContainerView,
    rule: Option<RenameRule>,
) -> Result<Seq<ParamLayoutV>, Seq<(Seq<char>, Seq<(bool, Seq<char>)>)>> {
    if has_param_attr {
        Err(param_attr_error())
    } else {
        match spec_struct_fields(
            ident,
            data,
            match names {
                Some(ns) => Some(ns.len()),
                None => None,
            },
        ) {
            Err(e) => Err(seq![e]),
            Ok(_) => params_upto(fs, fs.len(), names, style, parameter_in, c, rule),
        }
    }
}

/// The view of optional names.
pub open spec fn names_view(names: Option<&Vec<String>>) -> Option<Seq<Seq<char>>> {
    match names {
        Some(v) => Some(v@.map_values(|s: String| s@)),
        None => None,
    }
}

/// The parameters of a type that derives `IntoParams`: a `param` attribute
/// on the type is refused; its fields must give parameters (see
/// [`get_struct_fields`]); each field that serde does not skip gives one,
/// named by the container's name at its position where the container names
/// the fields.
pub fn into_params_params(
    ident: &str,
    has_param_attr: bool,
    data: DataShape,
    fields: Vec<ParamField>,
    names: Option<&Vec<String>>,
    style: Option<ParameterStyle>,
    parameter_in: Option<ParameterInKind>,
    serde_container: &SerdeContainer,
    rename_all: Option<&RenameAll>,
) -> (res: Result<Vec<ParamLayout>, Diagnostics>)
    requires
        forall|i: int|
            0 <= i < fields@.len() && !(#[trigger] fields@[i]).rules.skip ==> param_rename_ok(
                fields@[i],
                name_at(names_view(names), i),
                style,
                serde_container@,
                rename_all_rule(rename_all),
            ),
    ensures
        match res {
            Ok(v) => spec_into_params(
                ident@,
                has_param_attr,
                data,
                fields@,
                names_view(names),
                style,
                parameter_in,
                serde_container@,
                rename_all_rule(rename_all),
            ) == Ok::<Seq<ParamLayoutV>, Seq<(Seq<char>, Seq<(bool, Seq<char>)>)>>(
                v@.map_values(|l: ParamLayout| param_layout_view(l)),
            ),
            Err(d) => spec_into_params(
                ident@,
                has_param_attr,
                data,
                fields@,
                names_view(names),
                style,
                parameter_in,
                serde_container@,
                rename_all_rule(rename_all),
            ) == Err::<Seq<ParamLayoutV>, Seq<(Seq<char>, Seq<(bool, Seq<char>)>)>>(d@),
        },
{
    if has_param_attr {
        let h = String::from_str("Did you mean `into_params`?");
        let d = Diagnostics::new(String::from_str("found `param` attribute in unsupported context")).help(h);
        proof {
            let s = d@[0].1;
            let k = choose|k: int| 0 <= k <= 0 && s == Seq::<(bool, Seq<char>)>::empty().insert(k, (false, h@));
            assert(s =~= seq![(false, h@)]);
            assert(d@ =~= param_attr_error());
        }
        return Err(d);
    }
    proof {
        match names {
            Some(v) => {
                assert(names_count(names) == Some(v@.len()));
                assert(names_view(names)->Some_0.len() == v@.len());
            },
            None => {},
        }
        assert(names_count(names) == match names_view(names) {
            Some(ns) => Some(ns.len()),
            None => None,
        });
    }
    match get_struct_fields(ident, data, names) {
        Err(d) => {
            proof {
                assert(d@ =~= seq![d@[0]]);
            }
            return Err(d);
        },
        Ok(_) => {},
    }
    let ghost all = fields@;
    let ghost nv = names_view(names);
    let ghost rule = rename_all_rule(rename_all);
    assert(spec_into_params(ident@, has_param_attr, data, all, nv, style, parameter_in, serde_container@, rule)
        == params_upto(all, all.len(), nv, style, parameter_in, serde_container@, rule));
    let mut rest = fields;
    let n = rest.len();
    let mut params: Vec<ParamLayout> = Vec::new();
    let mut i: usize = 0;
    proof {
        assert(all.skip(0) =~= all);
        assert(params@.map_values(|l: ParamLayout| param_layout_view(l)) =~= Seq::<ParamLayoutV>::empty());
    }
    while i < n
        invariant
            i <= n,
            n == all.len(),
            rest@ == all.skip(i as int),
            all == fields@,
            nv == names_view(names),
            rule == rename_all_rule(rename_all),
            forall|j: int|
                0 <= j < all.len() && !(#[trigger] all[j]).rules.skip ==> param_rename_ok(
                    all[j],
                    name_at(nv, j),
                    style,
                    serde_container@,
                    rule,
                ),
            spec_into_params(ident@, has_param_attr, data, all, nv, style, parameter_in, serde_container@, rule)
                == params_upto(all, all.len(), nv, style, parameter_in, serde_container@, rule),
            params_upto(all, i as nat, nv, style, parameter_in, serde_container@, rule) == Ok::<
                Seq<ParamLayoutV>,
                Seq<(Seq<char>, Seq<(bool, Seq<char>)>)>,
            >(params@.map_values(|l: ParamLayout| param_layout_view(l))),
        decreases n - i,
    {
        let f = rest.remove(0);
        proof {
            assert(f == all[i as int]);
            assert(all.skip(i as int).remove(0) =~= all.skip(i + 1));
        }
        if !f.rules.skip {
            let name: Option<&String> = match names {
                Some(v) => {
                    if i < v.len() {
                        Some(&v[i])
                    } else {
                        let mut msg = chars_of(
                            "There is no name specified in the names(...) container attribute for tuple struct field ",
                        );
                        let digits = decimal_chars(i);
                        extend_chars(&mut msg, &digits);
                        let d = Diagnostics::new(string_from_chars(&msg));
                        proof {
                            assert(name_at(nv, i as int) is None);
                            assert(d@ =~= missing_name_error(i as nat));
                            assert(params_upto(all, (i + 1) as nat, nv, style, parameter_in, serde_container@, rule) == Err::<
                                Seq<ParamLayoutV>,
                                Seq<(Seq<char>, Seq<(bool, Seq<char>)>)>,
                            >(missing_name_error(i as nat)));
                            lemma_params_error_stays(all, (i + 1) as nat, all.len(), nv, style, parameter_in, serde_container@, rule);
                        }
                        return Err(d);
                    }
                },
                None => None,
            };
            proof {
                match names {
                    Some(v) => {
                        assert(name_at(nv, i as int) == Some(v@[i as int]@));
                    },
                    None => {},
                }
            }
            match param_layout(f, name, style, parameter_in, serde_container, rename_all) {
                Ok(p) => {
                    let ghost front = params@.map_values(|l: ParamLayout| param_layout_view(l));
                    params.push(p);
                    proof {
                        assert(params@.map_values(|l: ParamLayout| param_layout_view(l)) =~= front.push(
                            param_layout_view(p),
                        ));
                    }
                },
                Err(d) => {
                    proof {
                        assert(params_upto(all, (i + 1) as nat, nv, style, parameter_in, serde_container@, rule) == Err::<
                            Seq<ParamLayoutV>,
                            Seq<(Seq<char>, Seq<(bool, Seq<char>)>)>,
                        >(no_name_error()));
                        lemma_params_error_stays(all, (i + 1) as nat, all.len(), nv, style, parameter_in, serde_container@, rule);
                    }
                    return Err(d);
                },
            }
        }
        i = i + 1;
    }
    Ok(params)
}

/// An error among the first `k` fields is the error of all of them.
proof fn lemma_params_error_stays(
    fs: Seq<ParamField>,
    k: nat,
    n: nat,
    names: Option<Seq<Seq<char>>>,
    style: Option<ParameterStyle>,
    parameter_in: Option<ParameterInKind>,
    c: SerdeContainerView,
    rule: Option<RenameRule>,
)
    requires
        k <= n,
        params_upto(fs, k, names, style, parameter_in, c, rule) is Err,
    ensures
        params_upto(fs, n, names, style, parameter_in, c, rule) == params_upto(fs, k, names, style, parameter_in, c, rule),
    decreases n - k,
{
    if k < n {
        lemma_params_error_stays(fs, k, (n - 1) as nat, names, style, parameter_in, c, rule);
    }
}

/// A field of a type that derives `IntoParams`, with whether the type of
/// its schema is an `Option` read from its type tree (that of its
/// `value_type` feature, where it has one) or, where the configuration
/// gives one, from the type tree of its alias, which takes its place.
pub fn param_field(
    ident: Option<String>,
    rules: SerdeValue,
    features: Vec<Feature>,
    tree: &crate::type_tree::TypeTree,
    alias: &Option<crate::type_tree::TypeTree>,
) -> (res: ParamField)
    ensures
        res.ident == ident,
        res.rules == rules,
        res.features == features,
        res.is_option == (match alias {
            Some(a) => a.generic_type == Some(crate::type_tree::GenericType::Option),
            None => tree.generic_type == Some(crate::type_tree::GenericType::Option),
        }),
{
    let is_option = crate::alias::schema_is_option(tree, alias);
    ParamField { ident, rules, features, is_option }
}

} // verus!
