//! The values of a plain enum schema: the names of the variants that serde
//! does not skip, each renamed as serde and the schema features say.
use vstd::prelude::*;

use crate::diagnostics::Diagnostics;
use crate::features::{kind_of, pop_by, spec_pop_by, Deprecated, Feature, FeatureKind, RenameAll};
use crate::rust_type::{type_view, RustType};
use crate::type_tree::{from_type, spec_from_type, Outcome, ValueType};
use vstd::string::StringExecFns;
use crate::rename::{slices_first_char, RenameRule};
use crate::serde_attr::{
    opt_view, rename_all_rule, rename_enum_variant, rename_needs_first_char, spec_rename_value,
    variant_rename_rule, variant_rename_to, RenameTarget, SerdeContainer, SerdeContainerView,
    SerdeEnumRepr, SerdeEnumReprView, SerdeValue,
};

verus! {

/// A unit variant of an enum: its name, its serde rules and its schema
/// features.
pub struct PlainVariant {
    pub ident: String,
    pub rules: SerdeValue,
    pub features: Vec<Feature>,
}

/// The renamed name of a variant, if any rename applies.
pub open spec fn variant_rename(v: PlainVariant, container: SerdeContainerView, rule: Option<RenameRule>) -> Option<Seq<char>> {
    spec_rename_value(
        RenameTarget::Variant,
        v.ident@,
        variant_rename_to(v.features@, v.rules@),
        variant_rename_rule(container, rule),
    )
}

/// The name that a variant gets in the schema: its rename, else its own
/// name.
pub open spec fn variant_name(v: PlainVariant, container: SerdeContainerView, rule: Option<RenameRule>) -> Seq<char> {
    match variant_rename(v, container, rule) {
        Some(n) => n,
        None => v.ident@,
    }
}

/// Whether renaming the variant reads no first character of an empty name.
pub open spec fn variant_rename_ok(v: PlainVariant, container: SerdeContainerView, rule: Option<RenameRule>) -> bool {
    let to = variant_rename_to(v.features@, v.rules@);
    let r = variant_rename_rule(container, rule);
    (match to {
        Some(t) => t.len() == 0,
        None => true,
    }) ==> (match r {
        Some(r) => rename_needs_first_char(RenameTarget::Variant, r) ==> slices_first_char(v.ident@),
        None => true,
    })
}

/// The names of the variants that serde does not skip, in order.
pub open spec fn plain_enum_names(vs: Seq<PlainVariant>, container: SerdeContainerView, rule: Option<RenameRule>) -> Seq<Seq<char>>
    decreases vs.len(),
{
    if vs.len() == 0 {
        Seq::empty()
    } else {
        let front = plain_enum_names(vs.drop_last(), container, rule);
        if vs.last().rules.skip {
            front
        } else {
            front.push(variant_name(vs.last(), container, rule))
        }
    }
}

/// The values of a plain enum: the name of each variant that serde does not
/// skip, renamed by its serde `rename`, else its `rename` feature, else the
/// container's serde `rename_all`, else the `rename_all` feature.
pub fn plain_enum_variant_names(
    variants: Vec<PlainVariant>,
    container_rules: &SerdeContainer,
    rename_all: Option<&RenameAll>,
) -> (res: Vec<String>)
    requires
        forall|i: int|
            0 <= i < variants@.len() && !(#[trigger] variants@[i]).rules.skip ==> variant_rename_ok(
                variants@[i],
                container_rules@,
                rename_all_rule(rename_all),
            ),
    ensures
        res@.map_values(|s: String| s@) == plain_enum_names(
            variants@,
            container_rules@,
            rename_all_rule(rename_all),
        ),
{
    let ghost all = variants@;
    let ghost rule = rename_all_rule(rename_all);
    let mut rest = variants;
    let mut names: Vec<String> = Vec::new();
    let n = rest.len();
    let mut k: usize = 0;
    proof {
        assert(all.take(0) =~= Seq::<PlainVariant>::empty());
        assert(all.skip(0) =~= all);
        assert(names@.map_values(|s: String| s@) =~= Seq::<Seq<char>>::empty());
    }
    while k < n
        invariant
            k <= n,
            n == all.len(),
            rule == rename_all_rule(rename_all),
            rest@ == all.skip(k as int),
            forall|i: int|
                0 <= i < all.len() && !(#[trigger] all[i]).rules.skip ==> variant_rename_ok(
                    all[i],
                    container_rules@,
                    rule,
                ),
            names@.map_values(|s: String| s@) == plain_enum_names(all.take(k as int), container_rules@, rule),
        decreases n - k,
    {
        let mut v = rest.remove(0);
        proof {
            assert(v == all[k as int]);
            assert(all.skip(k as int).remove(0) =~= all.skip(k + 1));
            assert(all.take(k + 1).drop_last() =~= all.take(k as int));
            assert(all.take(k + 1).last() == v);
        }
        if !v.rules.skip {
            let ghost before = v;
            let renamed = rename_enum_variant(
                v.ident.as_str(),
                &mut v.features,
                &v.rules,
                container_rules,
                rename_all,
            );
            let name = match renamed {
                Some(r) => r,
                None => v.ident.clone(),
            };
            let ghost front = names@.map_values(|s: String| s@);
            names.push(name);
            proof {
                assert(opt_view(renamed) == variant_rename(before, container_rules@, rule));
                assert(name@ == variant_name(before, container_rules@, rule));
                assert(names@.map_values(|s: String| s@) =~= front.push(name@));
            }
        }
        k = k + 1;
    }
    proof {
        assert(all.take(n as int) =~= all);
    }
    names
}

/// The schema of a plain enum under its serde representation.
pub enum PlainEnumPlan {
    /// One string schema whose `enum` lists the names.
    Names(Vec<String>),
    /// A `oneOf` with one object per name; each object lists its required
    /// properties in order, each a string schema whose `enum` holds the one
    /// value given beside the property's name.
    OneOf(Vec<Vec<(String, String)>>),
    /// One `null` schema whose default is `null`.
    Null,
}

/// The plain-value view of a [`PlainEnumPlan`].
pub enum PlainEnumPlanView {
    Names(Seq<Seq<char>>),
    OneOf(Seq<Seq<(Seq<char>, Seq<char>)>>),
    Null,
}

/// The view of one object of a `oneOf`: its properties and their values.
pub open spec fn object_view(o: Vec<(String, String)>) -> Seq<(Seq<char>, Seq<char>)> {
    o@.map_values(|p: (String, String)| (p.0@, p.1@))
}

impl View for PlainEnumPlan {
    type V = PlainEnumPlanView;

    open spec fn view(&self) -> PlainEnumPlanView {
        match self {
            PlainEnumPlan::Names(names) => PlainEnumPlanView::Names(
                names@.map_values(|s: String| s@),
            ),
            PlainEnumPlan::OneOf(objects) => PlainEnumPlanView::OneOf(
                objects@.map_values(|o: Vec<(String, String)>| object_view(o)),
            ),
            PlainEnumPlan::Null => PlainEnumPlanView::Null,
        }
    }
}

/// The schema of a plain enum with the given names: externally tagged, one
/// string enum of all the names; internally tagged, a `oneOf` of objects
/// whose `tag` property holds one name each; untagged, one `null` schema
/// (unit variants all serialize as `null`); adjacently tagged, a `oneOf` of
/// objects whose `content` property holds one name each and whose `tag`
/// property holds the content's name.
pub open spec fn spec_plain_enum_plan(repr: SerdeEnumReprView, names: Seq<Seq<char>>) -> PlainEnumPlanView {
    match repr {
        SerdeEnumReprView::InternallyTagged { tag } => PlainEnumPlanView::OneOf(
            names.map_values(|n: Seq<char>| seq![(tag, n)]),
        ),
        SerdeEnumReprView::Untagged => PlainEnumPlanView::Null,
        SerdeEnumReprView::AdjacentlyTagged { tag, content } => PlainEnumPlanView::OneOf(
            names.map_values(|n: Seq<char>| seq![(content, n), (tag, content)]),
        ),
        _ => PlainEnumPlanView::Names(names),
    }
}

/// The schema of a plain enum with the given variant names under the serde
/// representation `repr`, which serde allows (not `content` without `tag`).
pub fn plain_enum_plan(repr: &SerdeEnumRepr, names: &Vec<String>) -> (res: PlainEnumPlan)
    requires
        !(repr@ is UnfinishedAdjacentlyTagged),
    ensures
        res@ == spec_plain_enum_plan(repr@, names@.map_values(|s: String| s@)),
{
    let ghost nv = names@.map_values(|s: String| s@);
    match repr {
        SerdeEnumRepr::InternallyTagged { tag } => {
            let mut objects: Vec<Vec<(String, String)>> = Vec::new();
            for i in 0..names.len()
                invariant
                    nv == names@.map_values(|s: String| s@),
                    objects@.map_values(|o: Vec<(String, String)>| object_view(o)) =~= nv.take(
                        i as int,
                    ).map_values(|n: Seq<char>| seq![(tag@, n)]),
            {
                let object = vec![(tag.clone(), names[i].clone())];
                let ghost before = objects@;
                objects.push(object);
                proof {
                    assert(object_view(object) =~= seq![(tag@, nv[i as int])]);
                    assert(nv.take(i + 1) =~= nv.take(i as int).push(nv[i as int]));
                    assert(objects@ =~= before.push(object));
                    assert(objects@.map_values(|o: Vec<(String, String)>| object_view(o))
                        =~= before.map_values(|o: Vec<(String, String)>| object_view(o)).push(
                        object_view(object),
                    ));
                    assert(nv.take(i + 1).map_values(|n: Seq<char>| seq![(tag@, n)])
                        =~= nv.take(i as int).map_values(|n: Seq<char>| seq![(tag@, n)]).push(
                        seq![(tag@, nv[i as int])],
                    ));
                }
            }
            proof {
                assert(nv.take(names@.len() as int) =~= nv);
            }
            PlainEnumPlan::OneOf(objects)
        },
        SerdeEnumRepr::Untagged => PlainEnumPlan::Null,
        SerdeEnumRepr::AdjacentlyTagged { tag, content } => {
            let mut objects: Vec<Vec<(String, String)>> = Vec::new();
            for i in 0..names.len()
                invariant
                    nv == names@.map_values(|s: String| s@),
                    objects@.map_values(|o: Vec<(String, String)>| object_view(o)) =~= nv.take(
                        i as int,
                    ).map_values(|n: Seq<char>| seq![(content@, n), (tag@, content@)]),
            {
                let object = vec![(content.clone(), names[i].clone()), (tag.clone(), content.clone())];
                let ghost before = objects@;
                objects.push(object);
                proof {
                    assert(object_view(object) =~= seq![(content@, nv[i as int]), (tag@, content@)]);
                    assert(nv.take(i + 1) =~= nv.take(i as int).push(nv[i as int]));
                    assert(objects@ =~= before.push(object));
                    assert(objects@.map_values(|o: Vec<(String, String)>| object_view(o))
                        =~= before.map_values(|o: Vec<(String, String)>| object_view(o)).push(
                        object_view(object),
                    ));
                    assert(nv.take(i + 1).map_values(
                        |n: Seq<char>| seq![(content@, n), (tag@, content@)],
                    ) =~= nv.take(i as int).map_values(
                        |n: Seq<char>| seq![(content@, n), (tag@, content@)],
                    ).push(seq![(content@, nv[i as int]), (tag@, content@)]));
                }
            }
            proof {
                assert(nv.take(names@.len() as int) =~= nv);
            }
            PlainEnumPlan::OneOf(objects)
        },
        _ => {
            let mut copy: Vec<String> = Vec::new();
            for i in 0..names.len()
                invariant
                    nv == names@.map_values(|s: String| s@),
                    copy@.map_values(|s: String| s@) =~= nv.take(i as int),
            {
                copy.push(names[i].clone());
                proof {
                    assert(nv.take(i + 1) =~= nv.take(i as int).push(nv[i as int]));
                }
            }
            proof {
                assert(nv.take(names@.len() as int) =~= nv);
            }
            PlainEnumPlan::Names(copy)
        },
    }
}

/// The fields of an enum variant: named, unnamed (by their types), or none.
pub enum VariantFields {
    Named,
    Unnamed(Vec<RustType>),
    Unit,
}

/// A variant of a mixed enum, as far as the discriminator check reads it:
/// its fields and whether its features inline its schema.
pub struct MixedVariant {
    pub fields: VariantFields,
    pub inline: bool,
}

/// Whether a variant allows a discriminator: one unnamed field whose type
/// reads as an object, not inlined.
pub open spec fn supports_discriminator(v: MixedVariant) -> bool {
    match v.fields {
        VariantFields::Unnamed(ts) => ts@.len() == 1 && (match spec_from_type(type_view(ts@[0])) {
            Outcome::Done(t) => t.value_type == ValueType::Object,
            _ => false,
        }) && !v.inline,
        _ => false,
    }
}

/// Whether every variant allows a discriminator.
pub open spec fn all_support_discriminator(vs: Seq<MixedVariant>) -> bool {
    forall|i: int| 0 <= i < vs.len() ==> #[trigger] supports_discriminator(vs[i])
}

/// Whether the single field of each variant that the check reads (those up
/// to the first variant that allows no discriminator) reads as a type tree.
pub open spec fn discriminator_check_ok(vs: Seq<MixedVariant>) -> bool {
    forall|i: int|
        #![trigger vs[i]]
        0 <= i < vs.len() && (forall|j: int| 0 <= j < i ==> supports_discriminator(#[trigger] vs[j]))
            ==> match vs[i].fields {
            VariantFields::Unnamed(ts) => ts@.len() == 1 ==> spec_from_type(type_view(ts@[0])) is Done,
            _ => true,
        }
}

/// The error for a discriminator that the enum does not allow.
pub open spec fn discriminator_error() -> Seq<(Seq<char>, Seq<(bool, Seq<char>)>)> {
    seq![
        (
            "Found discriminator in not discriminator supported context"@,
            seq![
                (
                    false,
                    "`discriminator` is only supported on enums with `#[serde(untagged)]` having unnamed field variants with single reference field."@,
                ),
                (true, "Read more about discriminators from the specs <https://spec.openapis.org/oas/latest.html#discriminator-object>"@),
                (true, "Unnamed field variants with inlined or primitive schemas does not support discriminator."@),
            ],
        ),
    ]
}

/// Checks a mixed enum's discriminator: one is allowed only on an untagged
/// enum whose every variant has one unnamed, not inlined field of an object
/// type. `None` where there is no discriminator or it is allowed.
pub fn check_discriminator(variants: &Vec<MixedVariant>, untagged: bool, has_discriminator: bool) -> (res: Option<Diagnostics>)
    requires
        discriminator_check_ok(variants@),
    ensures
        match res {
            None => !has_discriminator || (all_support_discriminator(variants@) && untagged),
            Some(d) => has_discriminator && !(all_support_discriminator(variants@) && untagged) && d@
                == discriminator_error(),
        },
{
    let n = variants.len();
    let mut supported = true;
    let mut i: usize = 0;
    while i < n && supported
        invariant
            i <= n,
            n == variants@.len(),
            discriminator_check_ok(variants@),
            supported ==> forall|j: int| 0 <= j < i ==> supports_discriminator(#[trigger] variants@[j]),
            !supported ==> !all_support_discriminator(variants@),
        decreases n - i,
    {
        let ok = variant_supports(&variants[i]);
        if !ok {
            supported = false;
        }
        i = i + 1;
    }
    let supported = supported && untagged;
    if has_discriminator && !supported {
        Some(discriminator_diagnostics())
    } else {
        None
    }
}

/// Whether the variant allows a discriminator.
fn variant_supports(v: &MixedVariant) -> (res: bool)
    requires
        match v.fields {
            VariantFields::Unnamed(ts) => ts@.len() == 1 ==> spec_from_type(type_view(ts@[0])) is Done,
            _ => true,
        },
    ensures
        res == supports_discriminator(*v),
{
    match &v.fields {
        VariantFields::Unnamed(ts) => {
            if ts.len() == 1 {
                let is_object = match from_type(&ts[0]) {
                    Ok(t) => t.value_type == ValueType::Object,
                    Err(_) => false,
                };
                is_object && !v.inline
            } else {
                false
            }
        },
        _ => false,
    }
}

/// The error for a discriminator that the enum does not allow.
fn discriminator_diagnostics() -> (res: Diagnostics)
    ensures
        res@ == discriminator_error(),
{
    let h = String::from_str(
        "`discriminator` is only supported on enums with `#[serde(untagged)]` having unnamed field variants with single reference field.",
    );
    let u = String::from_str(
        "Unnamed field variants with inlined or primitive schemas does not support discriminator.",
    );
    let r = String::from_str(
        "Read more about discriminators from the specs <https://spec.openapis.org/oas/latest.html#discriminator-object>",
    );
    let d1 = Diagnostics::new(String::from_str("Found discriminator in not discriminator supported context")).help(h);
    proof {
        let s1 = d1@[0].1;
        let k1 = choose|k: int| 0 <= k <= 0 && s1 == Seq::<(bool, Seq<char>)>::empty().insert(k, (false, h@));
        assert(s1 =~= seq![(false, h@)]);
    }
    let d2 = d1.note(u);
    proof {
        let s2 = d2@[0].1;
        let k2 = choose|k: int| 0 <= k <= 1 && s2 == d1@[0].1.insert(k, (true, u@));
        if k2 == 0 {
            assert(s2[0] == (true, u@) && s2[1] == (false, h@));
            assert(crate::diagnostics::suggestion_lt(s2[1], s2[0]));
            assert(false);
        }
        assert(s2 =~= seq![(false, h@), (true, u@)]);
    }
    let d3 = d2.note(r);
    proof {
        reveal_strlit("Unnamed field variants with inlined or primitive schemas does not support discriminator.");
        reveal_strlit("Read more about discriminators from the specs <https://spec.openapis.org/oas/latest.html#discriminator-object>");
        assert(r@[0] == 'R' && u@[0] == 'U');
        assert(crate::text::lex_lt(r@, u@));
        let s3 = d3@[0].1;
        let k3 = choose|k: int| 0 <= k <= 2 && s3 == d2@[0].1.insert(k, (true, r@));
        if k3 == 0 {
            assert(s3[0] == (true, r@) && s3[1] == (false, h@));
            assert(crate::diagnostics::suggestion_lt(s3[1], s3[0]));
            assert(false);
        }
        if k3 == 2 {
            assert(s3[1] == (true, u@) && s3[2] == (true, r@));
            assert(crate::diagnostics::suggestion_lt(s3[2], s3[1]));
            assert(false);
        }
        assert(s3 =~= seq![(false, h@), (true, r@), (true, u@)]);
        assert(d3@ =~= discriminator_error());
    }
    d3
}

/// Whether a feature of the kind describes the enum schema that holds a
/// variant rather than the variant's own schema.
pub open spec fn is_enum_feature_kind(k: FeatureKind) -> bool {
    match k {
        FeatureKind::Title | FeatureKind::Example | FeatureKind::Examples | FeatureKind::Default
        | FeatureKind::Description | FeatureKind::Deprecated => true,
        _ => false,
    }
}

/// Splits a variant's features into those of the enum schema that holds it
/// (`title`, `example`, `examples`, `default`, `description`, `deprecated`)
/// and the others, each in order.
pub fn split_enum_features(variant_features: Vec<Feature>) -> (res: (Vec<Feature>, Vec<Feature>))
    ensures
        res.0@ == variant_features@.filter(|f: Feature| is_enum_feature_kind(kind_of(f))),
        res.1@ == variant_features@.filter(|f: Feature| !is_enum_feature_kind(kind_of(f))),
{
    let ghost all = variant_features@;
    let mut rest = variant_features;
    let mut enum_features: Vec<Feature> = Vec::new();
    let mut others: Vec<Feature> = Vec::new();
    let n = rest.len();
    let mut k: usize = 0;
    proof {
        assert(all.take(0) =~= Seq::<Feature>::empty());
        assert(all.skip(0) =~= all);
        reveal_with_fuel(Seq::filter, 1);
    }
    while k < n
        invariant
            k <= n,
            n == all.len(),
            rest@ == all.skip(k as int),
            enum_features@ == all.take(k as int).filter(|f: Feature| is_enum_feature_kind(kind_of(f))),
            others@ == all.take(k as int).filter(|f: Feature| !is_enum_feature_kind(kind_of(f))),
        decreases n - k,
    {
        let f = rest.remove(0);
        proof {
            assert(f == all[k as int]);
            assert(all.skip(k as int).remove(0) =~= all.skip(k + 1));
            assert(all.take(k + 1).drop_last() =~= all.take(k as int));
            assert(all.take(k + 1).last() == f);
            reveal_with_fuel(Seq::filter, 1);
        }
        let is_enum = match f.kind() {
            FeatureKind::Title | FeatureKind::Example | FeatureKind::Examples | FeatureKind::Default
            | FeatureKind::Description | FeatureKind::Deprecated => true,
            _ => false,
        };
        if is_enum {
            enum_features.push(f);
        } else {
            others.push(f);
        }
        k = k + 1;
    }
    proof {
        assert(all.take(n as int) =~= all);
    }
    (enum_features, others)
}

/// Whether an enum is plain: every variant is a unit variant.
pub open spec fn is_plain_enum(vs: Seq<VariantFields>) -> bool {
    forall|i: int| 0 <= i < vs.len() ==> #[trigger] vs[i] is Unit
}

/// What the features of an enum give its schema: its `as` name, its
/// `bound`, and the features left, with `deprecated` added where the enum
/// is deprecated.
pub open spec fn spec_enum_features(fs: Seq<Feature>, deprecated: bool) -> (Option<Feature>, Option<Feature>, Seq<Feature>) {
    let (schema_as, f1) = spec_pop_by(fs, FeatureKind::As);
    let (bound, f2) = spec_pop_by(f1, FeatureKind::Bound);
    (
        schema_as,
        bound,
        if deprecated {
            f2.push(Feature::Deprecated(Deprecated(true)))
        } else {
            f2
        },
    )
}

/// The kind of an enum's schema and its features: plain where every
/// variant is a unit variant, mixed otherwise; the `as` and `bound`
/// features are taken out, and `deprecated` is added for a deprecated enum.
pub fn enum_schema_parts(variants: &Vec<VariantFields>, features: Vec<Feature>, deprecated: bool) -> (res: (
    bool,
    Option<Feature>,
    Option<Feature>,
    Vec<Feature>,
))
    ensures
        res.0 == is_plain_enum(variants@),
        (res.1, res.2, res.3@) == spec_enum_features(features@, deprecated),
{
    let n = variants.len();
    let mut plain = true;
    let mut i: usize = 0;
    while i < n && plain
        invariant
            i <= n,
            n == variants@.len(),
            plain ==> forall|j: int| 0 <= j < i ==> #[trigger] variants@[j] is Unit,
            !plain ==> !is_plain_enum(variants@),
        decreases n - i,
    {
        match &variants[i] {
            VariantFields::Unit => {},
            _ => {
                plain = false;
            },
        }
        i = i + 1;
    }
    let mut fs = features;
    let schema_as = pop_by(&mut fs, FeatureKind::As);
    let bound = pop_by(&mut fs, FeatureKind::Bound);
    if deprecated {
        fs.push(Feature::Deprecated(Deprecated(true)));
    }
    (plain, schema_as, bound, fs)
}

/// The fields of a mixed enum variant as the wrapping of its schema reads
/// them.
pub enum VariantShape {
    /// Named fields; whether their struct schema is an `allOf` (a flattened
    /// field makes it one).
    Named { all_of: bool },
    /// Unnamed fields: how many, and whether one of them is of an object
    /// type (a reference).
    Unnamed { fields: usize, has_reference: bool },
    /// No fields.
    Unit,
}

/// How the schema of a mixed enum variant is wrapped under the enum's serde
/// representation.
pub enum VariantWrap {
    /// An object whose one required property, named after the variant,
    /// holds the content.
    Keyed { name: String },
    /// The content with a required tag property whose enum holds the
    /// variant's name; where `as_item`, the content is an `allOf` (or a
    /// reference) and the object with the tag property is one more item.
    Tagged { tag: String, name: String, as_item: bool },
    /// The content alone.
    Content,
    /// An object whose required content property holds the content and
    /// whose required tag property's enum holds the variant's name.
    Adjacent { tag: String, content: String, name: String },
    /// A string enum of the variant's name.
    Name { name: String },
    /// An object whose required tag property's enum holds the variant's
    /// name.
    TaggedName { tag: String, name: String },
    /// The `null` schema.
    Null,
}

/// The plain-value view of a [`VariantWrap`].
pub enum VariantWrapV {
    Keyed { name: Seq<char> },
    Tagged { tag: Seq<char>, name: Seq<char>, as_item: bool },
    Content,
    Adjacent { tag: Seq<char>, content: Seq<char>, name: Seq<char> },
    Name { name: Seq<char> },
    TaggedName { tag: Seq<char>, name: Seq<char> },
    Null,
}

impl View for VariantWrap {
    type V = VariantWrapV;

    open spec fn view(&self) -> VariantWrapV {
        match self {
            VariantWrap::Keyed { name } => VariantWrapV::Keyed { name: name@ },
            VariantWrap::Tagged { tag, name, as_item } => VariantWrapV::Tagged {
                tag: tag@,
                name: name@,
                as_item: *as_item,
            },
            VariantWrap::Content => VariantWrapV::Content,
            VariantWrap::Adjacent { tag, content, name } => VariantWrapV::Adjacent {
                tag: tag@,
                content: content@,
                name: name@,
            },
            VariantWrap::Name { name } => VariantWrapV::Name { name: name@ },
            VariantWrap::TaggedName { tag, name } => VariantWrapV::TaggedName {
                tag: tag@,
                name: name@,
            },
            VariantWrap::Null => VariantWrapV::Null,
        }
    }
}

/// The wrapping of a variant's schema: externally tagged, under its name
/// (a unit variant: its name as a string enum); internally tagged, with the
/// tag property holding its name; untagged, the content alone (a unit
/// variant: `null`); adjacently tagged, the content and the tag side by
/// side (a unit variant: only the tag). `None` for an adjacently tagged
/// variant with more than one unnamed field, which is refused.
pub open spec fn spec_variant_wrap(repr: SerdeEnumReprView, shape: VariantShape, name: Seq<char>) -> Option<VariantWrapV> {
    match shape {
        VariantShape::Unit => match repr {
            SerdeEnumReprView::InternallyTagged { tag } => Some(VariantWrapV::TaggedName { tag, name }),
            SerdeEnumReprView::AdjacentlyTagged { tag, .. } => Some(VariantWrapV::TaggedName { tag, name }),
            SerdeEnumReprView::Untagged => Some(VariantWrapV::Null),
            _ => Some(VariantWrapV::Name { name }),
        },
        _ => match repr {
            SerdeEnumReprView::InternallyTagged { tag } => Some(
                VariantWrapV::Tagged {
                    tag,
                    name,
                    as_item: match shape {
                        VariantShape::Named { all_of } => all_of,
                        VariantShape::Unnamed { has_reference, .. } => has_reference,
                        VariantShape::Unit => false,
                    },
                },
            ),
            SerdeEnumReprView::Untagged => Some(VariantWrapV::Content),
            SerdeEnumReprView::AdjacentlyTagged { tag, content } => if shape matches VariantShape::Unnamed { fields, .. } && fields > 1 {
                None
            } else {
                Some(VariantWrapV::Adjacent { tag, content, name })
            },
            _ => Some(VariantWrapV::Keyed { name }),
        },
    }
}

/// Whether the variant's title, example, examples, default, description
/// and deprecation go to the wrapping rather than to the content: for a
/// variant with fields whose enum is not untagged.
pub open spec fn splits_features(repr: SerdeEnumReprView, shape: VariantShape) -> bool {
    !(shape is Unit) && !(repr is Untagged)
}

/// The error for an adjacently tagged variant with more than one unnamed
/// field.
pub open spec fn tuple_variant_error() -> Seq<(Seq<char>, Seq<(bool, Seq<char>)>)> {
    seq![
        (
            "Unnamed (tuple) enum variants are unsupported for internally tagged enums using the `tag = ` serde attribute"@,
            seq![
                (false, "Try using a different serde enum representation"@),
                (true, "See more about enum limitations here: `https://serde.rs/enum-representations.html#internally-tagged`"@),
            ],
        ),
    ]
}

fn tuple_variant_diagnostics() -> (res: Diagnostics)
    ensures
        res@ == tuple_variant_error(),
{
    let h = String::from_str("Try using a different serde enum representation");
    let n = String::from_str(
        "See more about enum limitations here: `https://serde.rs/enum-representations.html#internally-tagged`",
    );
    let d1 = Diagnostics::new(
        String::from_str(
            "Unnamed (tuple) enum variants are unsupported for internally tagged enums using the `tag = ` serde attribute",
        ),
    ).help(h);
    proof {
        let s1 = d1@[0].1;
        let k1 = choose|k: int| 0 <= k <= 0 && s1 == Seq::<(bool, Seq<char>)>::empty().insert(k, (false, h@));
        assert(s1 =~= seq![(false, h@)]);
    }
    let d2 = d1.note(n);
    proof {
        let s2 = d2@[0].1;
        let k2 = choose|k: int| 0 <= k <= 1 && s2 == d1@[0].1.insert(k, (true, n@));
        if k2 == 0 {
            assert(s2[0] == (true, n@) && s2[1] == (false, h@));
            assert(crate::diagnostics::suggestion_lt(s2[1], s2[0]));
            assert(false);
        }
        assert(s2 =~= seq![(false, h@), (true, n@)]);
        assert(d2@ =~= tuple_variant_error());
    }
    d2
}

/// How a mixed enum variant's schema is wrapped, as `spec_variant_wrap`
/// says, for a representation that serde allows; the error where it
/// refuses the variant.
pub fn variant_wrap(repr: &SerdeEnumRepr, shape: &VariantShape, name: &String) -> (res: Result<VariantWrap, Diagnostics>)
    requires
        !(repr@ is UnfinishedAdjacentlyTagged),
    ensures
        match spec_variant_wrap(repr@, *shape, name@) {
            Some(w) => res matches Ok(v) && v@ == w,
            None => res matches Err(d) && d@ == tuple_variant_error(),
        },
{
    let name = name.clone();
    match shape {
        VariantShape::Unit => match repr {
            SerdeEnumRepr::InternallyTagged { tag } => Ok(VariantWrap::TaggedName { tag: tag.clone(), name }),
            SerdeEnumRepr::AdjacentlyTagged { tag, .. } => Ok(VariantWrap::TaggedName { tag: tag.clone(), name }),
            SerdeEnumRepr::Untagged => Ok(VariantWrap::Null),
            _ => Ok(VariantWrap::Name { name }),
        },
        _ => match repr {
            SerdeEnumRepr::InternallyTagged { tag } => {
                let as_item = match shape {
                    VariantShape::Named { all_of } => *all_of,
                    VariantShape::Unnamed { has_reference, .. } => *has_reference,
                    VariantShape::Unit => false,
                };
                Ok(VariantWrap::Tagged { tag: tag.clone(), name, as_item })
            },
            SerdeEnumRepr::Untagged => Ok(VariantWrap::Content),
            SerdeEnumRepr::AdjacentlyTagged { tag, content } => {
                let refused = match shape {
                    VariantShape::Unnamed { fields, .. } => *fields > 1,
                    _ => false,
                };
                if refused {
                    Err(tuple_variant_diagnostics())
                } else {
                    Ok(VariantWrap::Adjacent { tag: tag.clone(), content: content.clone(), name })
                }
            },
            _ => Ok(VariantWrap::Keyed { name }),
        },
    }
}

/// Whether the variant's enum-level features are split from those of its
/// content, as `splits_features` says.
pub fn variant_splits_features(repr: &SerdeEnumRepr, shape: &VariantShape) -> (res: bool)
    ensures
        res == splits_features(repr@, *shape),
{
    let unit = match shape {
        VariantShape::Unit => true,
        _ => false,
    };
    let untagged = match repr {
        SerdeEnumRepr::Untagged => true,
        _ => false,
    };
    !unit && !untagged
}

} // verus!
