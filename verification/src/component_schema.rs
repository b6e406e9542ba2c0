//! The schema of a type tree node that no generic wrapper holds: a
//! primitive, any value, an object, a reference to (or inlined copy of) a
//! named schema, or the array of a tuple's items.
use vstd::prelude::*;

use crate::attrs::{get_generic_type_param_index, type_param_index, GenericParam};
use crate::component_type::{
    data_type_of, format_of, ComponentType, DataType, TypeFormat, TypeFeatures, Variant,
};
use crate::diagnostics::Diagnostics;
use crate::features::{
    has_feature_kind, has_kind, kind_of, pop_by, spec_pop_by, vec_xml_extracted, Feature,
    FeatureKind, IsInline,
};
use crate::rust_type::{clone_path, lemma_segments_view, path_view, SegmentV, TypePath};
use crate::text::{chars_of, extend_chars, str_eq, string_from_chars};
use crate::type_tree::{
    child_refs, child_refs_ok, compose_child_references, composed_name, lemma_trees_view,
    tree_is, tree_paths_ok, tree_view, trees_named, trees_view, GenericType, TypeTree,
    TypeTreeV, ValueType,
};

verus! {

/// The schema reference that an object type adds to the schemas that a
/// component refers to.
pub struct ReferencePlan {
    /// The type whose schema name (`ToSchema::name`) starts the name.
    pub type_path: TypePath,
    /// What follows the type's schema name: `_` and the composed name of the
    /// generic arguments, or nothing where there are none.
    pub name_suffix: String,
    /// Whether the reference carries the type's own schema and references:
    /// not for a type that stands for a generic parameter of the container.
    pub concrete: bool,
    /// The object types that the generic arguments refer to, depth first,
    /// for an inlined type.
    pub child_references: Vec<TypePath>,
}

/// The plain-value view of a [`ReferencePlan`].
pub struct ReferencePlanV {
    pub type_path: Seq<SegmentV>,
    pub name_suffix: Seq<char>,
    pub concrete: bool,
    pub child_references: Seq<Seq<SegmentV>>,
}

impl View for ReferencePlan {
    type V = ReferencePlanV;

    open spec fn view(&self) -> ReferencePlanV {
        ReferencePlanV {
            type_path: path_view(self.type_path),
            name_suffix: self.name_suffix@,
            concrete: self.concrete,
            child_references: self.child_references@.map_values(|p: TypePath| path_view(p)),
        }
    }
}

/// The schema of a node that no generic wrapper holds.
pub enum SchemaPlan {
    /// An object builder with the data type of a primitive (with `null`
    /// where `nullable`), its format where it has a known one, the
    /// deprecation, the remaining features, and then `minimum: 0` where
    /// `minimum_zero`.
    Primitive {
        data_type: DataType,
        nullable: bool,
        format: Option<Variant>,
        deprecated: Option<Feature>,
        features: Vec<Feature>,
        minimum_zero: bool,
    },
    /// A schema that takes any value, with the deprecation.
    AnyValue { deprecated: Option<Feature> },
    /// No schema at all.
    Nothing,
    /// A free-form object, of type `[object, null]` where `nullable`.
    Object { nullable: bool, deprecated: Option<Feature> },
    /// A named type: its schema inlined or a `$ref` to it, in an `allOf`
    /// with a `null` item first where `nullable`, and with the default,
    /// where `nullable` or a default is given. A type that stands for a
    /// generic parameter takes the composed schema at its index where one
    /// is given.
    Named {
        inline: bool,
        generic_index: Option<usize>,
        nullable: bool,
        default: Option<Feature>,
        reference: ReferencePlan,
    },
    /// An array whose items are an `allOf` of the tuple's members, each
    /// with `nullable` where it is an `Option` (`nullable_items`), of type
    /// `[array, null]` where `nullable`, with the deprecation and then the
    /// features.
    Array {
        nullable: bool,
        nullable_items: Vec<bool>,
        deprecated: Option<Feature>,
        features: Vec<Feature>,
    },
    /// The empty schema of a tuple without members, then the features.
    Empty { features: Vec<Feature> },
}

/// The plain-value view of a [`SchemaPlan`].
pub enum SchemaPlanV {
    Primitive {
        data_type: DataType,
        nullable: bool,
        format: Option<Variant>,
        deprecated: Option<Feature>,
        features: Seq<Feature>,
        minimum_zero: bool,
    },
    AnyValue { deprecated: Option<Feature> },
    Nothing,
    Object { nullable: bool, deprecated: Option<Feature> },
    Named {
        inline: bool,
        generic_index: Option<nat>,
        nullable: bool,
        default: Option<Feature>,
        reference: ReferencePlanV,
    },
    Array {
        nullable: bool,
        nullable_items: Seq<bool>,
        deprecated: Option<Feature>,
        features: Seq<Feature>,
    },
    Empty { features: Seq<Feature> },
}

impl View for SchemaPlan {
    type V = SchemaPlanV;

    open spec fn view(&self) -> SchemaPlanV {
        match self {
            SchemaPlan::Primitive {
                data_type,
                nullable,
                format,
                deprecated,
                features,
                minimum_zero,
            } => SchemaPlanV::Primitive {
                data_type: *data_type,
                nullable: *nullable,
                format: *format,
                deprecated: *deprecated,
                features: features@,
                minimum_zero: *minimum_zero,
            },
            SchemaPlan::AnyValue { deprecated } => SchemaPlanV::AnyValue {
                deprecated: *deprecated,
            },
            SchemaPlan::Nothing => SchemaPlanV::Nothing,
            SchemaPlan::Object { nullable, deprecated } => SchemaPlanV::Object {
                nullable: *nullable,
                deprecated: *deprecated,
            },
            SchemaPlan::Named { inline, generic_index, nullable, default, reference } =>
                SchemaPlanV::Named {
                inline: *inline,
                generic_index: match generic_index {
                    Some(i) => Some(*i as nat),
                    None => None,
                },
                nullable: *nullable,
                default: *default,
                reference: reference@,
            },
            SchemaPlan::Array { nullable, nullable_items, deprecated, features } =>
                SchemaPlanV::Array {
                nullable: *nullable,
                nullable_items: nullable_items@,
                deprecated: *deprecated,
                features: features@,
            },
            SchemaPlan::Empty { features } => SchemaPlanV::Empty { features: features@ },
        }
    }
}

/// The names of the unsigned integer types.
pub open spec fn is_unsigned_name(name: Seq<char>) -> bool {
    ||| name == "u8"@
    ||| name == "u16"@
    ||| name == "u32"@
    ||| name == "u64"@
    ||| name == "u128"@
    ||| name == "usize"@
}

/// Whether a type name is an unsigned integer type.
pub fn is_unsigned_integer(name: &str) -> (res: bool)
    ensures
        res == is_unsigned_name(name@),
{
    str_eq(name, "u8") || str_eq(name, "u16") || str_eq(name, "u32") || str_eq(name, "u64")
        || str_eq(name, "u128") || str_eq(name, "usize")
}

/// The value of a `nullable` feature: `false` where there is none.
pub open spec fn nullable_of(f: Option<Feature>) -> bool {
    match f {
        Some(Feature::Nullable(n)) => n.0,
        _ => false,
    }
}

/// Whether some feature of the list is an `inline` that holds.
pub open spec fn has_inline(fs: Seq<Feature>) -> bool {
    exists|i: int| 0 <= i < fs.len() && (#[trigger] fs[i] matches Feature::Inline(x) && x.0)
}

/// Whether the members of a tuple are each an `Option`.
pub open spec fn option_flags(cs: Seq<TypeTreeV>) -> Seq<bool> {
    cs.map_values(|c: TypeTreeV| c.generic_type == Some(GenericType::Option))
}

/// What follows a type's schema name in the name of its schema: `_` and
/// the composed name of its generic arguments, where it has some.
pub open spec fn name_suffix(t: TypeTreeV) -> Seq<char> {
    match t.children {
        Some(c) => seq!['_'] + composed_name(c),
        None => Seq::empty(),
    }
}

/// Where the plan of a node can be made without a missing path: a node that
/// is a primitive, or an object other than the virtual `Object`, has a
/// path; the generic arguments of such an object all have paths, and those
/// of an inlined one have a path wherever they are objects without
/// arguments.
pub open spec fn plan_ok(t: TypeTreeV, features: Seq<Feature>) -> bool {
    &&& tree_paths_ok(t)
    &&& t.value_type == ValueType::Primitive ==> t.path is Some
    &&& (t.value_type == ValueType::Object && !tree_is(t, "Object"@)) ==> {
        &&& t.path is Some
        &&& match t.children {
            Some(c) => trees_named(c) && (has_inline(features) ==> child_refs_ok(c)),
            None => true,
        }
    }
}

/// The schema of a node that no generic wrapper holds, with its features
/// (of which the first `nullable` and the first `deprecated` are taken
/// out), for a container with the given generic parameters:
/// - a primitive gets its data type and format, and `minimum: 0` where it is
///   unsigned and no `minimum` is given;
/// - a `Value` node gets the any-value schema where it is, or holds,
///   `Value`, and nothing otherwise;
/// - a node that is, or holds, `Object` gets a free-form object;
/// - another object gets its named schema: inlined where an `inline`
///   feature holds, else a `$ref` or, for a generic parameter, the composed
///   schema at the parameter's index; the first `default` feature is taken
///   out;
/// - a tuple gets the array of its members, or the empty schema where it
///   has none.
pub open spec fn spec_non_generic_plan(
    t: TypeTreeV,
    features: Seq<Feature>,
    tf: TypeFeatures,
    params: Seq<GenericParam>,
) -> SchemaPlanV {
    let (nullable_feat, rest) = spec_pop_by(features, FeatureKind::Nullable);
    let (deprecated, fs) = spec_pop_by(rest, FeatureKind::Deprecated);
    let nullable = nullable_of(nullable_feat);
    match t.value_type {
        ValueType::Primitive => spec_primitive_plan(
            t.path->Some_0.last().ident,
            nullable,
            deprecated,
            fs,
            tf,
        ),
        ValueType::Value => if tree_is(t, "Value"@) {
            SchemaPlanV::AnyValue { deprecated }
        } else {
            SchemaPlanV::Nothing
        },
        ValueType::Object => if tree_is(t, "Object"@) {
            SchemaPlanV::Object { nullable, deprecated }
        } else {
            spec_named_plan(t, fs, nullable, params)
        },
        ValueType::Tuple => match t.children {
            Some(c) => SchemaPlanV::Array {
                nullable,
                nullable_items: option_flags(c),
                deprecated,
                features: fs,
            },
            None => SchemaPlanV::Empty { features: fs },
        },
    }
}

/// The schema of a primitive type of the name: its data type and format,
/// and `minimum: 0` where it is unsigned and no `minimum` is given.
pub open spec fn spec_primitive_plan(
    name: Seq<char>,
    nullable: bool,
    deprecated: Option<Feature>,
    fs: Seq<Feature>,
    tf: TypeFeatures,
) -> SchemaPlanV {
    SchemaPlanV::Primitive {
        data_type: data_type_of(name, tf),
        nullable,
        format: format_of(name, tf),
        deprecated,
        features: fs,
        minimum_zero: is_unsigned_name(name) && !has_kind(fs, FeatureKind::Minimum),
    }
}

/// The schema of a named type: inlined where an `inline` feature holds,
/// else a `$ref`, or the composed schema at the index of the generic
/// parameter that it stands for; the first `default` feature is taken out.
pub open spec fn spec_named_plan(
    t: TypeTreeV,
    fs: Seq<Feature>,
    nullable: bool,
    params: Seq<GenericParam>,
) -> SchemaPlanV {
    let p = t.path->Some_0;
    let inline = has_inline(fs);
    let index = if inline {
        None
    } else {
        type_param_index(params, p.last().ident)
    };
    SchemaPlanV::Named {
        inline,
        generic_index: index,
        nullable,
        default: spec_pop_by(fs, FeatureKind::Default).0,
        reference: ReferencePlanV {
            type_path: p,
            name_suffix: name_suffix(t),
            concrete: index is None,
            child_references: if inline {
                match t.children {
                    Some(c) => child_refs(c),
                    None => Seq::empty(),
                }
            } else {
                Seq::empty()
            },
        },
    }
}

/// The flags of the members of a tuple that are an `Option`.
fn option_flags_exec(children: &Vec<TypeTree>) -> (res: Vec<bool>)
    ensures
        res@ == option_flags(trees_view(children@)),
{
    proof {
        lemma_trees_view(children@);
    }
    let mut flags: Vec<bool> = Vec::new();
    let n = children.len();
    for i in 0..n
        invariant
            n == children@.len(),
            trees_view(children@).len() == n,
            forall|j: int| 0 <= j < n ==> #[trigger] trees_view(children@)[j] == tree_view(children@[j]),
            flags@ =~= option_flags(trees_view(children@)).take(i as int),
    {
        flags.push(children[i].is_option());
        proof {
            assert(option_flags(trees_view(children@)).take(i + 1) =~= option_flags(
                trees_view(children@),
            ).take(i as int).push(children@[i as int].generic_type == Some(GenericType::Option)));
        }
    }
    proof {
        assert(option_flags(trees_view(children@)).take(n as int) =~= option_flags(
            trees_view(children@),
        ));
    }
    flags
}

/// The schema of a type tree node that no generic wrapper holds, as
/// `spec_non_generic_plan` gives it.
pub fn non_generic_schema_plan(
    tree: &TypeTree,
    features: Vec<Feature>,
    type_features: TypeFeatures,
    generic_params: &Vec<GenericParam>,
) -> (res: SchemaPlan)
    requires
        plan_ok(tree_view(*tree), features@),
    ensures
        res@ == spec_non_generic_plan(tree_view(*tree), features@, type_features, generic_params@),
{
    let ghost t = tree_view(*tree);
    let ghost f0 = features@;
    let mut features = features;
    let nullable_feat = pop_by(&mut features, FeatureKind::Nullable);
    let nullable = match &nullable_feat {
        Some(Feature::Nullable(n)) => n.0,
        _ => false,
    };
    let deprecated = pop_by(&mut features, FeatureKind::Deprecated);
    let ghost fs = features@;
    proof {
        lemma_pop_keeps_inline(f0, FeatureKind::Nullable);
        lemma_pop_keeps_inline(spec_pop_by(f0, FeatureKind::Nullable).1, FeatureKind::Deprecated);
    }
    match tree.value_type {
        ValueType::Primitive => {
            let path = match &tree.path {
                Some(p) => p,
                None => {
                    return vstd::pervasive::unreached();
                },
            };
            primitive_plan(path, nullable, deprecated, features, type_features)
        },
        ValueType::Value => {
            if tree.is_value() {
                SchemaPlan::AnyValue { deprecated }
            } else {
                SchemaPlan::Nothing
            }
        },
        ValueType::Object => {
            if tree.is_object() {
                SchemaPlan::Object { nullable, deprecated }
            } else {
                named_plan(tree, features, nullable, generic_params)
            }
        },
        ValueType::Tuple => match &tree.children {
            Some(children) => {
                let nullable_items = option_flags_exec(children);
                SchemaPlan::Array { nullable, nullable_items, deprecated, features }
            },
            None => SchemaPlan::Empty { features },
        },
    }
}

fn primitive_plan(
    path: &TypePath,
    nullable: bool,
    deprecated: Option<Feature>,
    features: Vec<Feature>,
    type_features: TypeFeatures,
) -> (res: SchemaPlan)
    requires
        path_view(*path).len() > 0,
    ensures
        res@ == spec_primitive_plan(
            path_view(*path).last().ident,
            nullable,
            deprecated,
            features@,
            type_features,
        ),
{
    proof {
        lemma_segments_view(path.segments@);
    }
    let n = path.segments.len();
    let name = path.segments[n - 1].ident.as_str();
    proof {
        assert(path_view(*path).last() == crate::rust_type::segment_view(path.segments@[n - 1]));
    }
    let minimum_zero = is_unsigned_integer(name) && !has_feature_kind(
        &features,
        FeatureKind::Minimum,
    );
    let data_type = ComponentType(path).data_type(type_features);
    let format = TypeFormat(path).format(type_features);
    SchemaPlan::Primitive { data_type, nullable, format, deprecated, features, minimum_zero }
}

fn named_plan(
    tree: &TypeTree,
    features: Vec<Feature>,
    nullable: bool,
    generic_params: &Vec<GenericParam>,
) -> (res: SchemaPlan)
    requires
        tree_paths_ok(tree_view(*tree)),
        tree_view(*tree).path is Some,
        match tree_view(*tree).children {
            Some(c) => trees_named(c) && (has_inline(features@) ==> child_refs_ok(c)),
            None => true,
        },
    ensures
        res@ == spec_named_plan(tree_view(*tree), features@, nullable, generic_params@),
{
    let ghost t = tree_view(*tree);
    let path = match &tree.path {
        Some(p) => p,
        None => {
            return vstd::pervasive::unreached();
        },
    };
    proof {
        assert(t.path == Some(path_view(*path)));
    }
    let mut features = features;
    let inline = features.is_inline();
    let name_suffix = match &tree.children {
        Some(children) => {
            let composed = TypeTree::compose_name(children);
            let mut chars: Vec<char> = vec!['_'];
            let tail = chars_of(composed.as_str());
            extend_chars(&mut chars, &tail);
            proof {
                assert(chars@ =~= seq!['_'] + composed_name(trees_view(children@)));
            }
            string_from_chars(&chars)
        },
        None => String::new(),
    };
    let default = pop_by(&mut features, FeatureKind::Default);
    let (generic_index, child_references) = if inline {
        let refs = match &tree.children {
            Some(children) => compose_child_references(children),
            None => Vec::new(),
        };
        (None, refs)
    } else {
        let index = get_generic_type_param_index(generic_params, tree);
        (index, Vec::new())
    };
    proof {
        assert(child_references@.map_values(|p: TypePath| path_view(p)) =~= (if inline {
            match t.children {
                Some(c) => child_refs(c),
                None => Seq::empty(),
            }
        } else {
            Seq::<Seq<SegmentV>>::empty()
        }));
    }
    let concrete = generic_index.is_none();
    SchemaPlan::Named {
        inline,
        generic_index,
        nullable,
        default,
        reference: ReferencePlan {
            type_path: clone_path(path),
            name_suffix,
            concrete,
            child_references,
        },
    }
}

/// A list with a feature of the kind has a first one.
proof fn lemma_first_exists(s: Seq<Feature>, kind: FeatureKind, n: int)
    requires
        0 <= n <= s.len(),
        exists|j: int| 0 <= j < n && kind_of(#[trigger] s[j]) == kind,
    ensures
        exists|i: int| crate::features::is_first_of_kind(s, kind, i),
    decreases n,
{
    if exists|j: int| 0 <= j < n - 1 && kind_of(#[trigger] s[j]) == kind {
        lemma_first_exists(s, kind, n - 1);
    } else {
        assert(crate::features::is_first_of_kind(s, kind, n - 1));
    }
}

/// Taking out a feature of another kind than `inline` keeps whether an
/// `inline` holds.
proof fn lemma_pop_keeps_inline(s: Seq<Feature>, kind: FeatureKind)
    requires
        kind != FeatureKind::Inline,
    ensures
        has_inline(spec_pop_by(s, kind).1) == has_inline(s),
{
    if has_kind(s, kind) {
        lemma_first_exists(s, kind, s.len() as int);
        let i = crate::features::first_of_kind(s, kind);
        let r = spec_pop_by(s, kind).1;
        assert(crate::features::is_first_of_kind(s, kind, i));
        assert(kind_of(s[i]) == kind);
        assert(!(s[i] matches Feature::Inline(x) && x.0));
        if has_inline(s) {
            let k = choose|k: int| 0 <= k < s.len() && (#[trigger] s[k] matches Feature::Inline(x) && x.0);
            if k == s.len() - 1 {
                assert(r[i] == s[k]);
            } else {
                assert(r[k] == s[k]);
            }
        }
        if has_inline(r) {
            let k = choose|k: int| 0 <= k < r.len() && (#[trigger] r[k] matches Feature::Inline(x) && x.0);
            if k == i {
                assert(s[s.len() - 1] == r[k]);
            } else {
                assert(s[k] == r[k]);
            }
        }
    }
}

/// The schema of a `Vec`, `LinkedList` or set: an array whose items are
/// the schema of its first type argument with the features left for them
/// (see `array_items`), `unique` for a set, of type `[array, null]` where
/// `nullable`, with the deprecation, then `max_items`, `min_items`, the
/// default, the example and the `Vec`'s part of the `xml` options.
pub struct ArrayPlan {
    pub example: Option<Feature>,
    pub xml: Option<Feature>,
    pub max_items: Option<Feature>,
    pub min_items: Option<Feature>,
    pub nullable: bool,
    pub default: Option<Feature>,
    pub deprecated: Option<Feature>,
    pub unique: bool,
}

/// The features left for the items of an array once `max_items`,
/// `min_items`, `nullable`, `default` and `deprecated` are taken out in turn
/// of the features `after_xml`.
pub open spec fn array_items(after_xml: Seq<Feature>) -> Seq<Feature> {
    let f3 = spec_pop_by(after_xml, FeatureKind::MaxItems).1;
    let f4 = spec_pop_by(f3, FeatureKind::MinItems).1;
    let f5 = spec_pop_by(f4, FeatureKind::Nullable).1;
    let f6 = spec_pop_by(f5, FeatureKind::Default).1;
    spec_pop_by(f6, FeatureKind::Deprecated).1
}

/// Whether the plan is the array schema of the tree with the features
/// `after_xml` left once the `xml` options are split (to `xml`) and the
/// `example` is taken out: `max_items`, `min_items`, `nullable`, `default`
/// and `deprecated` are then taken out in turn, and the rest go to the
/// items.
pub open spec fn array_plan_is(
    p: ArrayPlan,
    t: TypeTreeV,
    example: Option<Feature>,
    xml: Option<Feature>,
    after_xml: Seq<Feature>,
) -> bool {
    let (max_items, f3) = spec_pop_by(after_xml, FeatureKind::MaxItems);
    let (min_items, f4) = spec_pop_by(f3, FeatureKind::MinItems);
    let (nullable, f5) = spec_pop_by(f4, FeatureKind::Nullable);
    let (default, f6) = spec_pop_by(f5, FeatureKind::Default);
    let (deprecated, f7) = spec_pop_by(f6, FeatureKind::Deprecated);
    &&& p.example == example
    &&& p.xml == xml
    &&& p.max_items == max_items
    &&& p.min_items == min_items
    &&& p.nullable == nullable_of(nullable)
    &&& p.default == default
    &&& p.deprecated == deprecated
    &&& p.unique == (t.generic_type == Some(GenericType::SetLike))
    &&& f7 == array_items(after_xml)
}

/// Whether `res` is the array schema of the tree with the features: the
/// first `example` is taken out, the `xml` options are split for the `Vec`
/// (or their error is the result), and the rest as `array_plan_is` says.
pub open spec fn vec_plan_result(
    t: TypeTreeV,
    fs: Seq<Feature>,
    res: Result<(ArrayPlan, Vec<Feature>), Diagnostics>,
) -> bool {
    exists|xml: Result<Option<Feature>, Diagnostics>, f2: Seq<Feature>|
        #[trigger] vec_xml_extracted(spec_pop_by(fs, FeatureKind::Example).1, t.generic_type, xml, f2)
            && match xml {
            Err(d) => res == Err::<(ArrayPlan, Vec<Feature>), Diagnostics>(d),
            Ok(x) => res matches Ok(r) && array_plan_is(
                r.0,
                t,
                spec_pop_by(fs, FeatureKind::Example).0,
                x,
                f2,
            ) && r.1@ == array_items(f2),
        }
}

/// The array schema of a tree whose generic wrapper is a `Vec`,
/// `LinkedList` or set, and which has a type argument: the first `example`
/// is taken out, the `xml` options are split for the `Vec` (an error
/// where they are wrapped and the type is no `Vec`), and then as
/// `array_plan_is` says; the features left for the items come with it.
pub fn vec_schema_plan(tree: &TypeTree, features: Vec<Feature>) -> (res: Result<(ArrayPlan, Vec<Feature>), Diagnostics>)
    requires
        tree_view(*tree).children is Some,
        tree_view(*tree).children->Some_0.len() > 0,
    ensures
        vec_plan_result(tree_view(*tree), features@, res),
{
    let ghost orig = features@;
    let mut features = features;
    let example = pop_by(&mut features, FeatureKind::Example);
    let ghost f1 = features@;
    assert(spec_pop_by(orig, FeatureKind::Example) == (example, f1));
    let xml_res = crate::features::extract_vec_xml_feature(&mut features, tree.generic_type);
    let ghost f2 = features@;
    let ghost xr = xml_res;
    let ghost ex = example;
    proof {
        assert(vec_xml_extracted(f1, tree.generic_type, xr, f2));
    }
    let xml = match xml_res {
        Ok(x) => x,
        Err(d) => {
            assert(xr == Err::<Option<Feature>, Diagnostics>(d));
            let res = Err(d);
            assert(vec_xml_extracted(spec_pop_by(orig, FeatureKind::Example).1, tree.generic_type, xr, f2));
            assert(vec_plan_result(tree_view(*tree), orig, res));
            return res;
        },
    };
    let ghost xm = xml;
    let max_items = pop_by(&mut features, FeatureKind::MaxItems);
    let min_items = pop_by(&mut features, FeatureKind::MinItems);
    let nullable_feat = pop_by(&mut features, FeatureKind::Nullable);
    let nullable = match &nullable_feat {
        Some(Feature::Nullable(n)) => n.0,
        _ => false,
    };
    let default = pop_by(&mut features, FeatureKind::Default);
    let deprecated = pop_by(&mut features, FeatureKind::Deprecated);
    let unique = match tree.generic_type {
        Some(GenericType::SetLike) => true,
        _ => false,
    };
    let plan = ArrayPlan {
        example,
        xml,
        max_items,
        min_items,
        nullable,
        default,
        deprecated,
        unique,
    };
    assert(array_plan_is(plan, tree_view(*tree), ex, xm, f2));
    assert(features@ == array_items(f2));
    assert(xr == Ok::<Option<Feature>, Diagnostics>(xm));
    let res = Ok((plan, features));
    assert(vec_xml_extracted(spec_pop_by(orig, FeatureKind::Example).1, tree.generic_type, xr, f2));
    assert(vec_plan_result(tree_view(*tree), orig, res));
    res
}


} // verus!
