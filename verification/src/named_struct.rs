//! The layout of the schema of a struct with named fields: which fields are
//! properties of its object, under which names and whether they are
//! required, and how flattened fields join it.
use vstd::prelude::*;

use crate::diagnostics::Diagnostics;
use crate::features::{
    has_feature_kind, has_kind, pop_by, spec_pop_by, AnyValue, Deprecated, Feature, FeatureKind, NoRecursion,
    RenameAll,
};
use vstd::string::StringExecFns;
use crate::rename::{slices_first_char, RenameRule};
use crate::serde_attr::{
    opt_view, rename, rename_all_rule, rename_needs_first_char, spec_rename_value,
    variant_rename_rule, RenameTarget, SerdeContainer, SerdeContainerView, SerdeValue,
};
use crate::text::{chars_of, extend_chars, string_from_chars, sub_chars};
use crate::type_tree::{tree_view, GenericType, TypeTree, TypeTreeV};

verus! {

/// How a field's property is given: by its schema, by a `schema_with`
/// function, or as a flattened map.
#[derive(PartialEq, Eq, Structural, Clone, Copy, Debug)]
pub enum PropertyKind {
    Schema,
    SchemaWith,
    FlattenedMap,
}

/// A named field as its options read it: its identifier as written, its
/// serde rules, the name of its `rename` feature, its `required` feature,
/// whether the type of its schema is an `Option` (that of its configured
/// alias where there is one: see `alias::schema_is_option`), and how its
/// property is given.
pub struct NamedField {
    pub name: String,
    pub rules: SerdeValue,
    pub renamed_field: Option<String>,
    pub required: Option<bool>,
    pub is_option: bool,
    pub property: PropertyKind,
}

/// A property of the struct's object: its name, whether it is required, and
/// the position of its field.
pub struct ObjectProperty {
    pub name: String,
    pub required: bool,
    pub field: usize,
}

/// The layout of the schema: the object's properties in order; the
/// flattened fields that are items of an `allOf`, in order; the flattened
/// map field that gives the object's additional properties; whether the
/// schema is an `allOf`; and whether unknown fields are denied.
pub struct NamedStructLayout {
    pub properties: Vec<ObjectProperty>,
    pub flattened_items: Vec<usize>,
    pub flattened_map: Option<usize>,
    pub all_of: bool,
    pub deny_unknown_fields: bool,
}

/// The view of a [`NamedStructLayout`].
pub struct LayoutV {
    pub properties: Seq<(Seq<char>, bool, nat)>,
    pub flattened_items: Seq<nat>,
    pub flattened_map: Option<nat>,
    pub all_of: bool,
    pub deny_unknown_fields: bool,
}

/// The view of a layout.
pub open spec fn layout_view(l: NamedStructLayout) -> LayoutV {
    LayoutV {
        properties: l.properties@.map_values(|p: ObjectProperty| (p.name@, p.required, p.field as nat)),
        flattened_items: l.flattened_items@.map_values(|i: usize| i as nat),
        flattened_map: match l.flattened_map {
            Some(i) => Some(i as nat),
            None => None,
        },
        all_of: l.all_of,
        deny_unknown_fields: l.deny_unknown_fields,
    }
}

/// A field name without the `r#` of a raw identifier.
pub open spec fn unraw(n: Seq<char>) -> Seq<char> {
    if n.len() >= 2 && n[0] == 'r' && n[1] == '#' {
        n.skip(2)
    } else {
        n
    }
}

/// The explicit rename of a field: its serde `rename`, else its `rename`
/// feature.
pub open spec fn field_rename_to(f: NamedField) -> Option<Seq<char>> {
    match f.rules@.rename {
        Some(r) => Some(r),
        None => opt_view(f.renamed_field),
    }
}

/// The name of a field's property: its rename, else its name.
pub open spec fn property_name(f: NamedField, c: SerdeContainerView, rule: Option<RenameRule>) -> Seq<char> {
    match spec_rename_value(RenameTarget::Field, unraw(f.name@), field_rename_to(f), variant_rename_rule(c, rule)) {
        Some(n) => n,
        None => unraw(f.name@),
    }
}

/// Whether renaming the field reads no first character of an empty name.
pub open spec fn field_rename_ok(f: NamedField, c: SerdeContainerView, rule: Option<RenameRule>) -> bool {
    (match field_rename_to(f) {
        Some(t) => t.len() == 0,
        None => true,
    }) ==> (match variant_rename_rule(c, rule) {
        Some(r) => rename_needs_first_char(RenameTarget::Field, r) ==> slices_first_char(unraw(f.name@)),
        None => true,
    })
}

/// Whether a field's property is required: as its `required` feature says,
/// else where its type is no `Option` and serde requires it.
pub open spec fn property_required(f: NamedField, c: SerdeContainerView) -> bool {
    match f.required {
        Some(r) => r,
        None => !f.is_option && (!f.rules.skip_serializing_if && !f.rules.double_option && !(c.default
            || f.rules.default)),
    }
}

/// Whether a field is a property of the object: serde neither skips nor
/// flattens it.
pub open spec fn is_object_field(f: NamedField) -> bool {
    !f.rules.skip && !f.rules.flatten
}

/// The object's properties among the first `n` fields, in order.
pub open spec fn object_properties(fs: Seq<NamedField>, n: nat, c: SerdeContainerView, rule: Option<RenameRule>) -> Seq<(Seq<char>, bool, nat)>
    decreases n,
{
    if n == 0 {
        Seq::empty()
    } else {
        let front = object_properties(fs, (n - 1) as nat, c, rule);
        let f = fs[n - 1];
        if is_object_field(f) {
            front.push((property_name(f, c, rule), property_required(f, c), (n - 1) as nat))
        } else {
            front
        }
    }
}

/// The flattened fields among the first `n` fields, in order: those that
/// are items of an `allOf`, and the flattened map; a second flattened map
/// is an error, with the positions of both maps.
pub open spec fn flattened_fields(fs: Seq<NamedField>, n: nat) -> Result<(Seq<nat>, Option<nat>), (nat, nat)>
    decreases n,
{
    if n == 0 {
        Ok((Seq::empty(), None))
    } else {
        match flattened_fields(fs, (n - 1) as nat) {
            Err(e) => Err(e),
            Ok((items, map)) => {
                let f = fs[n - 1];
                if !f.rules.flatten {
                    Ok((items, map))
                } else if f.property == PropertyKind::FlattenedMap {
                    match map {
                        None => Ok((items, Some((n - 1) as nat))),
                        Some(m) => Err((m, (n - 1) as nat)),
                    }
                } else {
                    Ok((items.push((n - 1) as nat), map))
                }
            },
        }
    }
}

/// The layout of the struct's schema, or the positions of two flattened
/// maps. The schema is an `allOf` where some flattened field is an item;
/// unknown fields are denied only where it is not.
pub open spec fn spec_layout(fs: Seq<NamedField>, c: SerdeContainerView, rule: Option<RenameRule>, deny_unknown_fields: bool) -> Result<LayoutV, (nat, nat)> {
    match flattened_fields(fs, fs.len()) {
        Err(e) => Err(e),
        Ok((items, map)) => Ok(
            LayoutV {
                properties: object_properties(fs, fs.len(), c, rule),
                flattened_items: items,
                flattened_map: map,
                all_of: items.len() > 0,
                deny_unknown_fields: !(items.len() > 0) && deny_unknown_fields,
            },
        ),
    }
}

/// The error for a struct with two flattened maps.
pub open spec fn multiple_maps_error(ident: Seq<char>, first: Seq<char>, second: Seq<char>) -> Seq<(Seq<char>, Seq<(bool, Seq<char>)>)> {
    seq![
        (
            "The structure `"@ + ident + "` contains multiple flattened map fields."@,
            seq![
                (true, "first flattened map field was declared here as `"@ + first + "`"@),
                (true, "second flattened map field was declared here as `"@ + second + "`"@),
            ],
        ),
    ]
}

/// The name of a field without the `r#` of a raw identifier.
pub fn unraw_name(name: &str) -> (res: String)
    ensures
        res@ == unraw(name@),
{
    let v = chars_of(name);
    if v.len() >= 2 && v[0] == 'r' && v[1] == '#' {
        let rest = sub_chars(&v, 2, v.len());
        assert(v@.subrange(2, v@.len() as int) =~= v@.skip(2));
        string_from_chars(&rest)
    } else {
        string_from_chars(&v)
    }
}

/// The property of an object field.
fn object_property(f: &NamedField, index: usize, container_rules: &SerdeContainer, rename_all: Option<&RenameAll>) -> (res: ObjectProperty)
    requires
        field_rename_ok(*f, container_rules@, rename_all_rule(rename_all)),
    ensures
        res.name@ == property_name(*f, container_rules@, rename_all_rule(rename_all)),
        res.required == property_required(*f, container_rules@),
        res.field == index,
{
    let name = unraw_name(f.name.as_str());
    let rename_to: Option<String> = match &f.rules.rename {
        Some(r) => Some(r.clone()),
        None => match &f.renamed_field {
            Some(r) => Some(r.clone()),
            None => None,
        },
    };
    let rule: Option<RenameRule> = match container_rules.rename_all {
        Some(r) => Some(r),
        None => match rename_all {
            Some(ra) => Some(*ra.as_rename_rule()),
            None => None,
        },
    };
    let renamed = rename(RenameTarget::Field, name.as_str(), rename_to, rule);
    let property_name = match renamed {
        Some(r) => r,
        None => name,
    };
    let required = match f.required {
        Some(r) => r,
        None => !f.is_option && crate::serde_attr::is_required(&f.rules, container_rules),
    };
    ObjectProperty { name: property_name, required, field: index }
}

/// The error for a struct with two flattened maps.
fn multiple_maps_diagnostics(ident: &str, first: &str, second: &str) -> (res: Diagnostics)
    ensures
        res@ == multiple_maps_error(ident@, first@, second@),
{
    let mut msg = chars_of("The structure `");
    extend_chars(&mut msg, &chars_of(ident));
    extend_chars(&mut msg, &chars_of("` contains multiple flattened map fields."));
    let mut n1 = chars_of("first flattened map field was declared here as `");
    extend_chars(&mut n1, &chars_of(first));
    extend_chars(&mut n1, &chars_of("`"));
    let mut n2 = chars_of("second flattened map field was declared here as `");
    extend_chars(&mut n2, &chars_of(second));
    extend_chars(&mut n2, &chars_of("`"));
    let note1 = string_from_chars(&n1);
    let note2 = string_from_chars(&n2);
    let d1 = Diagnostics::new(string_from_chars(&msg)).note(note1);
    proof {
        let s1 = d1@[0].1;
        let k1 = choose|k: int| 0 <= k <= 0 && s1 == Seq::<(bool, Seq<char>)>::empty().insert(k, (true, note1@));
        assert(s1 =~= seq![(true, note1@)]);
    }
    let d2 = d1.note(note2);
    proof {
        reveal_strlit("first flattened map field was declared here as `");
        reveal_strlit("second flattened map field was declared here as `");
        assert(note1@[0] == 'f' && note2@[0] == 's');
        assert(crate::text::lex_lt(note1@, note2@));
        let s2 = d2@[0].1;
        let k2 = choose|k: int| 0 <= k <= 1 && s2 == d1@[0].1.insert(k, (true, note2@));
        if k2 == 0 {
            assert(s2[0] == (true, note2@) && s2[1] == (true, note1@));
            assert(crate::diagnostics::suggestion_lt(s2[1], s2[0]));
            assert(false);
        }
        assert(s2 =~= seq![(true, note1@), (true, note2@)]);
        assert(d2@ =~= multiple_maps_error(ident@, first@, second@));
    }
    d2
}

/// Lays out the schema of the struct `ident` from its fields: the fields
/// that serde neither skips nor flattens are the object's properties, each
/// under its rename and required as its features and serde say; flattened
/// fields join as items of an `allOf`, except one flattened map, which
/// gives the object's additional properties. A second flattened map is an
/// error. Unknown fields are denied where asked and the schema is no
/// `allOf`.
pub fn named_struct_layout(
    ident: &str,
    fields: &Vec<NamedField>,
    container_rules: &SerdeContainer,
    rename_all: Option<&RenameAll>,
    deny_unknown_fields: bool,
) -> (res: Result<NamedStructLayout, Diagnostics>)
    requires
        forall|i: int|
            0 <= i < fields@.len() && is_object_field(#[trigger] fields@[i]) ==> field_rename_ok(
                fields@[i],
                container_rules@,
                rename_all_rule(rename_all),
            ),
    ensures
        match res {
            Ok(l) => spec_layout(fields@, container_rules@, rename_all_rule(rename_all), deny_unknown_fields)
                == Ok::<LayoutV, (nat, nat)>(layout_view(l)),
            Err(d) => match spec_layout(fields@, container_rules@, rename_all_rule(rename_all), deny_unknown_fields) {
                Err((a, b)) => a < b < fields@.len() && d@ == multiple_maps_error(
                    ident@,
                    fields@[a as int].name@,
                    fields@[b as int].name@,
                ),
                Ok(_) => false,
            },
        },
{
    let ghost fs = fields@;
    let ghost rule = rename_all_rule(rename_all);
    let n = fields.len();
    let mut properties: Vec<ObjectProperty> = Vec::new();
    for i in 0..n
        invariant
            n == fs.len(),
            fs == fields@,
            rule == rename_all_rule(rename_all),
            forall|j: int|
                0 <= j < fs.len() && is_object_field(#[trigger] fs[j]) ==> field_rename_ok(
                    fs[j],
                    container_rules@,
                    rule,
                ),
            properties@.map_values(|p: ObjectProperty| (p.name@, p.required, p.field as nat))
                == object_properties(fs, i as nat, container_rules@, rule),
    {
        let f = &fields[i];
        let ghost front = properties@.map_values(|p: ObjectProperty| (p.name@, p.required, p.field as nat));
        if !f.rules.skip && !f.rules.flatten {
            let p = object_property(f, i, container_rules, rename_all);
            properties.push(p);
            proof {
                assert(properties@.map_values(|p: ObjectProperty| (p.name@, p.required, p.field as nat))
                    =~= front.push((p.name@, p.required, i as nat)));
            }
        }
    }
    let mut items: Vec<usize> = Vec::new();
    let mut map: Option<usize> = None;
    proof {
        assert(items@.map_values(|i: usize| i as nat) =~= Seq::<nat>::empty());
    }
    for i in 0..n
        invariant
            n == fs.len(),
            fs == fields@,
            flattened_fields(fs, i as nat) == Ok::<(Seq<nat>, Option<nat>), (nat, nat)>(
                (
                    items@.map_values(|k: usize| k as nat),
                    match map {
                        Some(m) => Some(m as nat),
                        None => None,
                    },
                ),
            ),
            map matches Some(m) ==> m < i,
    {
        let f = &fields[i];
        if f.rules.flatten {
            if f.property == PropertyKind::FlattenedMap {
                match map {
                    None => {
                        map = Some(i);
                    },
                    Some(m) => {
                        proof {
                            lemma_flattened_error_stays(fs, (i + 1) as nat, fs.len());
                        }
                        return Err(
                            multiple_maps_diagnostics(ident, fields[m].name.as_str(), f.name.as_str()),
                        );
                    },
                }
            } else {
                let ghost front = items@.map_values(|k: usize| k as nat);
                items.push(i);
                proof {
                    assert(items@.map_values(|k: usize| k as nat) =~= front.push(i as nat));
                }
            }
        }
    }
    let all_of = items.len() > 0;
    Ok(
        NamedStructLayout {
            properties,
            flattened_items: items,
            flattened_map: map,
            all_of,
            deny_unknown_fields: !all_of && deny_unknown_fields,
        },
    )
}

/// An error among the first `k` fields is the error of all of them.
proof fn lemma_flattened_error_stays(fs: Seq<NamedField>, k: nat, n: nat)
    requires
        k <= n,
        flattened_fields(fs, k) is Err,
    ensures
        flattened_fields(fs, n) == flattened_fields(fs, k),
    decreases n - k,
{
    if k < n {
        lemma_flattened_error_stays(fs, k, (n - 1) as nat);
    }
}

/// What a named field's features give its property: the name of its
/// `rename` feature; its `value_type`, `schema_with` and `ignore` features;
/// the value of its `required` feature; and the features left for its
/// schema.
pub struct FieldOptions {
    pub rename: Option<String>,
    pub value_type: Option<Feature>,
    pub schema_with: Option<Feature>,
    pub required: Option<bool>,
    pub ignore: Option<Feature>,
    pub features: Vec<Feature>,
}

/// Whether the feature is the default that the `Default` trait gives the
/// field `field` of the type `root`.
pub open spec fn is_default_trait_of(f: Feature, root: Seq<char>, field: Seq<char>) -> bool {
    f matches Feature::Default(crate::features::Default(Some(AnyValue::DefaultTrait { struct_ident, field: fi })))
        && struct_ident@ == root && fi@ == field
}

/// The field's features before the options are taken out: `no_recursion`
/// where the type has it; the default `d` where the type has a `default`
/// feature or serde's `default` and the field has no default; a
/// `deprecated` feature where the field is deprecated and has none.
pub open spec fn prepared_field_features(
    fs: Seq<Feature>,
    container: Seq<Feature>,
    serde_default: bool,
    d: Feature,
    deprecated: bool,
) -> Seq<Feature> {
    let f1 = if has_kind(container, FeatureKind::NoRecursion) {
        fs.push(Feature::NoRecursion(NoRecursion))
    } else {
        fs
    };
    let f2 = if (has_kind(container, FeatureKind::Default) || serde_default) && !has_kind(f1, FeatureKind::Default) {
        f1.push(d)
    } else {
        f1
    };
    if deprecated && !has_kind(f2, FeatureKind::Deprecated) {
        f2.push(Feature::Deprecated(Deprecated(true)))
    } else {
        f2
    }
}

/// The view of [`FieldOptions`].
pub struct FieldOptionsV {
    pub rename: Option<Seq<char>>,
    pub value_type: Option<Feature>,
    pub schema_with: Option<Feature>,
    pub required: Option<bool>,
    pub ignore: Option<Feature>,
    pub features: Seq<Feature>,
}

/// The view of field options.
pub open spec fn field_options_view(o: FieldOptions) -> FieldOptionsV {
    FieldOptionsV {
        rename: opt_view(o.rename),
        value_type: o.value_type,
        schema_with: o.schema_with,
        required: o.required,
        ignore: o.ignore,
        features: o.features@,
    }
}

/// The options taken out of the prepared features in turn: `rename`,
/// `value_type`, `schema_with`, `required`, then `ignore`.
pub open spec fn spec_field_options(fs: Seq<Feature>) -> FieldOptionsV {
    let (rn, g1) = spec_pop_by(fs, FeatureKind::Rename);
    let (vt, g2) = spec_pop_by(g1, FeatureKind::ValueType);
    let (sw, g3) = spec_pop_by(g2, FeatureKind::SchemaWith);
    let (rq, g4) = spec_pop_by(g3, FeatureKind::Required);
    let (ig, g5) = spec_pop_by(g4, FeatureKind::Ignore);
    FieldOptionsV {
        rename: match rn {
            Some(Feature::Rename(r)) => Some(r.0@),
            _ => None,
        },
        value_type: vt,
        schema_with: sw,
        required: match rq {
            Some(Feature::Required(r)) => Some(r.0),
            _ => None,
        },
        ignore: ig,
        features: g5,
    }
}


/// Takes a named field's options out of its features: the type's
/// `no_recursion` passes to the field; the type's `default` feature or
/// serde's `default` gives a field without a default the `Default` trait's
/// value of the field; a deprecated field gets `deprecated`; then the
/// `rename`, `value_type`, `schema_with`, `required` and `ignore` features
/// are taken out in turn, and the rest are the features of its schema.
pub fn named_field_options(
    field_features: Vec<Feature>,
    container_features: &Vec<Feature>,
    serde_default: bool,
    root_ident: &str,
    field_ident: &str,
    deprecated: bool,
) -> (res: FieldOptions)
    ensures
        exists|d: Feature|
            is_default_trait_of(d, root_ident@, field_ident@) && field_options_view(res) == spec_field_options(
                prepared_field_features(field_features@, container_features@, serde_default, d, deprecated),
            ),
{
    let mut features = field_features;
    if has_feature_kind(container_features, FeatureKind::NoRecursion) {
        features.push(Feature::NoRecursion(NoRecursion));
    }
    let ghost f1 = features@;
    let d = Feature::Default(
        crate::features::Default(
            Some(
                AnyValue::DefaultTrait {
                    struct_ident: String::from_str(root_ident),
                    field: String::from_str(field_ident),
                },
            ),
        ),
    );
    let ghost dg = d;
    let schema_default = has_feature_kind(container_features, FeatureKind::Default);
    if (schema_default || serde_default) && !has_feature_kind(&features, FeatureKind::Default) {
        features.push(d);
    }
    if deprecated && !has_feature_kind(&features, FeatureKind::Deprecated) {
        features.push(Feature::Deprecated(Deprecated(true)));
    }
    proof {
        assert(features@ == prepared_field_features(field_features@, container_features@, serde_default, dg, deprecated));
    }
    let rn = pop_by(&mut features, FeatureKind::Rename);
    let rename: Option<String> = match rn {
        Some(Feature::Rename(r)) => Some(r.into_value()),
        _ => None,
    };
    let value_type = pop_by(&mut features, FeatureKind::ValueType);
    let schema_with = pop_by(&mut features, FeatureKind::SchemaWith);
    let rq = pop_by(&mut features, FeatureKind::Required);
    let required: Option<bool> = match rq {
        Some(Feature::Required(r)) => Some(r.0),
        _ => None,
    };
    let ignore = pop_by(&mut features, FeatureKind::Ignore);
    let res = FieldOptions { rename, value_type, schema_with, required, ignore, features };
    proof {
        assert(is_default_trait_of(dg, root_ident@, field_ident@));
    }
    res
}

/// How a named field's property is given, as its options and the type of
/// its schema decide it: a `schema_with` feature gives it; else a flattened
/// field whose schema's type is a map is a flattened map; else its schema.
pub open spec fn spec_field_property(schema_with: Option<Feature>, flatten: bool, schema_type: TypeTreeV) -> PropertyKind {
    if schema_with is Some {
        PropertyKind::SchemaWith
    } else if flatten && schema_type.generic_type == Some(GenericType::MapLike) {
        PropertyKind::FlattenedMap
    } else {
        PropertyKind::Schema
    }
}

/// The field of a named struct whose schema has the given type tree (that
/// of its `value_type` feature, where it has one) and, where the
/// configuration gives one, the type tree of its alias, which takes the
/// place of the other: the field with `is_option` and `property` set from
/// that type and the field's options and serde rules.
pub fn named_field(
    name: String,
    rules: SerdeValue,
    options: &FieldOptions,
    tree: &TypeTree,
    alias: &Option<TypeTree>,
) -> (res: NamedField)
    ensures
        res.name == name,
        res.rules == rules,
        opt_view(res.renamed_field) == opt_view(options.rename),
        res.required == options.required,
        res.is_option == (match alias {
            Some(a) => a.generic_type == Some(GenericType::Option),
            None => tree.generic_type == Some(GenericType::Option),
        }),
        res.property == spec_field_property(
            options.schema_with,
            rules.flatten,
            match alias {
                Some(a) => tree_view(*a),
                None => tree_view(*tree),
            },
        ),
{
    let schema_type = match alias {
        Some(a) => a,
        None => tree,
    };
    let property = if options.schema_with.is_some() {
        PropertyKind::SchemaWith
    } else if rules.flatten && schema_type.is_map() {
        PropertyKind::FlattenedMap
    } else {
        PropertyKind::Schema
    };
    let renamed_field = match &options.rename {
        Some(r) => Some(r.clone()),
        None => None,
    };
    NamedField {
        name,
        rules,
        renamed_field,
        required: options.required,
        is_option: crate::alias::schema_is_option(tree, alias),
        property,
    }
}

} // verus!
