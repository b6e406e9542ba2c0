//! The whole schema of a type tree: maps, arrays and the wrappers that pass
//! the schema on to their type argument, down to the nodes that no wrapper
//! holds, and the schema references that the schema collects.
use vstd::prelude::*;

use crate::attrs::GenericParam;
use crate::component_schema::{
    array_items, array_plan_is, non_generic_schema_plan, plan_ok,
    spec_non_generic_plan, vec_schema_plan, ArrayPlan, ReferencePlan,
    ReferencePlanV, SchemaPlan,
};
use crate::component_type::TypeFeatures;
use crate::diagnostics::Diagnostics;
use crate::features::{
    has_feature_kind, has_kind, pop_by, spec_pop_by, vec_xml_extracted, Feature, FeatureKind,
    Nullable,
};
use crate::rust_type::{clone_path, path_view, TypePath};
use crate::type_tree::{
    child_refs_ok, lemma_trees_view, tree_is, tree_paths_ok, tree_view, trees_named,
    trees_paths_ok, trees_view, GenericType, TypeTree, TypeTreeV, ValueType,
};
use vstd::string::StringExecFns;

verus! {

/// The schema of a map: an object (of type `[object, null]` where
/// `nullable`) whose additional properties are those of the
/// `additional_properties` feature, else the schema of the map's value type
/// with the features left; with the deprecation, the default and the
/// example.
pub struct MapPlan {
    pub example: Option<Feature>,
    pub additional_properties: Option<Feature>,
    pub nullable: bool,
    pub default: Option<Feature>,
    pub deprecated: Option<Feature>,
}

/// The value of a `nullable` feature: `false` where there is none.
pub open spec fn nullable_value(f: Option<Feature>) -> bool {
    match f {
        Some(Feature::Nullable(n)) => n.0,
        _ => false,
    }
}

/// The map schema of the features, and the features left for the values:
/// `example`, `additional_properties`, `nullable`, `default` and
/// `deprecated` are taken out in turn.
pub open spec fn spec_map_plan(fs: Seq<Feature>) -> (MapPlan, Seq<Feature>) {
    let (example, f1) = spec_pop_by(fs, FeatureKind::Example);
    let (additional_properties, f2) = spec_pop_by(f1, FeatureKind::AdditionalProperties);
    let (nullable, f3) = spec_pop_by(f2, FeatureKind::Nullable);
    let (default, f4) = spec_pop_by(f3, FeatureKind::Default);
    let (deprecated, f5) = spec_pop_by(f4, FeatureKind::Deprecated);
    (
        MapPlan {
            example,
            additional_properties,
            nullable: nullable_value(nullable),
            default,
            deprecated,
        },
        f5,
    )
}

/// The schema of a map with the features, and the features left for the
/// schema of its values, as `spec_map_plan` says.
pub fn map_schema_plan(features: Vec<Feature>) -> (res: (MapPlan, Vec<Feature>))
    ensures
        (res.0, res.1@) == spec_map_plan(features@),
{
    let mut features = features;
    let example = pop_by(&mut features, FeatureKind::Example);
    let additional_properties = pop_by(&mut features, FeatureKind::AdditionalProperties);
    let nullable_feat = pop_by(&mut features, FeatureKind::Nullable);
    let nullable = match &nullable_feat {
        Some(Feature::Nullable(n)) => n.0,
        _ => false,
    };
    let default = pop_by(&mut features, FeatureKind::Default);
    let deprecated = pop_by(&mut features, FeatureKind::Deprecated);
    (MapPlan { example, additional_properties, nullable, default, deprecated }, features)
}

/// The schema of a flattened map field: the schema of the map's value type
/// with the features left, then the deprecation, the default, the example
/// and the `nullable` feature.
pub struct FlattenedMapPlan {
    pub deprecated: Option<Feature>,
    pub example: Option<Feature>,
    pub nullable: Option<Feature>,
    pub default: Option<Feature>,
}

/// The flattened map schema of the features, and the features left for the
/// values: `deprecated`, `example`, `nullable` and `default` are taken out
/// in turn.
pub open spec fn spec_flattened_map_plan(fs: Seq<Feature>) -> (FlattenedMapPlan, Seq<Feature>) {
    let (deprecated, f1) = spec_pop_by(fs, FeatureKind::Deprecated);
    let (example, f2) = spec_pop_by(f1, FeatureKind::Example);
    let (nullable, f3) = spec_pop_by(f2, FeatureKind::Nullable);
    let (default, f4) = spec_pop_by(f3, FeatureKind::Default);
    (FlattenedMapPlan { deprecated, example, nullable, default }, f4)
}

/// The schema of a flattened map field, and the features left for the
/// schema of its values, as `spec_flattened_map_plan` says.
pub fn flattened_map_schema_plan(features: Vec<Feature>) -> (res: (FlattenedMapPlan, Vec<Feature>))
    ensures
        (res.0, res.1@) == spec_flattened_map_plan(features@),
{
    let mut features = features;
    let deprecated = pop_by(&mut features, FeatureKind::Deprecated);
    let example = pop_by(&mut features, FeatureKind::Example);
    let nullable = pop_by(&mut features, FeatureKind::Nullable);
    let default = pop_by(&mut features, FeatureKind::Default);
    (FlattenedMapPlan { deprecated, example, nullable, default }, features)
}

/// The whole schema of a type tree.
pub enum ComponentPlan {
    /// A map; `values` is the schema of its value type, where no
    /// `additional_properties` feature is given.
    MapObject { map: MapPlan, values: Option<Box<ComponentPlan>> },
    /// A `Vec`, `LinkedList` or set; `items` is the schema of its type
    /// argument.
    Array { array: ArrayPlan, items: Box<ComponentPlan> },
    /// A node that no wrapper holds; `members` are the schemas of a tuple's
    /// members, in order.
    Schema { plan: SchemaPlan, members: Vec<ComponentPlan> },
}

/// The features with `nullable` added where none is given.
pub open spec fn with_nullable(fs: Seq<Feature>) -> Seq<Feature> {
    if has_kind(fs, FeatureKind::Nullable) {
        fs
    } else {
        fs.push(Feature::Nullable(Nullable(true)))
    }
}

/// The features of a tuple member's schema: `nullable` for an `Option`.
pub open spec fn member_features(c: TypeTreeV) -> Seq<Feature> {
    if c.generic_type == Some(GenericType::Option) {
        seq![Feature::Nullable(Nullable(true))]
    } else {
        Seq::empty()
    }
}

/// Whether the whole schema of a tree can be planned without a missing
/// part: every node that has a path has a segment in it; a map has two
/// type arguments, another wrapper one, and the one whose schema is used
/// can be planned; a primitive has a path; an object other than the
/// virtual `Object` has a path, and its type arguments have paths wherever
/// they are objects; the members of a tuple can be planned.
pub open spec fn plan_tree_ok(t: TypeTreeV) -> bool
    decreases t, 1nat,
{
    &&& tree_paths_ok(t)
    &&& match t.generic_type {
        Some(GenericType::MapLike) => match t.children {
            Some(c) => c.len() > 1 && plan_tree_ok(c[1]),
            None => false,
        },
        Some(_) => match t.children {
            Some(c) => c.len() > 0 && plan_tree_ok(c[0]),
            None => false,
        },
        None => {
            &&& (t.value_type == ValueType::Primitive ==> t.path is Some)
            &&& ((t.value_type == ValueType::Object && !tree_is(t, "Object"@)) ==> {
                &&& t.path is Some
                &&& match t.children {
                    Some(c) => trees_named(c) && child_refs_ok(c),
                    None => true,
                }
            })
            &&& (t.value_type == ValueType::Tuple ==> match t.children {
                Some(c) => trees_plan_ok(c),
                None => true,
            })
        },
    }
}

/// `plan_tree_ok` of each tree.
pub open spec fn trees_plan_ok(cs: Seq<TypeTreeV>) -> bool
    decreases cs, 0nat,
{
    if cs.len() == 0 {
        true
    } else {
        trees_plan_ok(cs.drop_last()) && plan_tree_ok(cs.last())
    }
}

/// Whether `res` is the whole schema of the tree with the features, for a
/// container with the generic parameters:
/// - a map: `spec_map_plan` of the features, and, where no
///   `additional_properties` feature is given, the schema of its second
///   type argument with the features left (or that schema's error);
/// - a `Vec`, `LinkedList` or set: the array schema, with the schema of its
///   first type argument with the features left as items (or the error of
///   either);
/// - an `Option`: the schema of its first type argument, with `nullable`
///   added where none is given;
/// - a `Cow`, `Box` or `RefCell`: the schema of its first type argument
///   with the same features;
/// - any other node: `spec_non_generic_plan`, with the schemas of a tuple's
///   members, each `nullable` where it is an `Option` (or the error of the
///   first member that has one).
pub open spec fn component_plan_is(
    t: TypeTreeV,
    fs: Seq<Feature>,
    tf: TypeFeatures,
    params: Seq<GenericParam>,
    res: Result<ComponentPlan, Diagnostics>,
) -> bool
    decreases t, 1nat,
{
    match t.generic_type {
        Some(GenericType::MapLike) => match t.children {
            Some(c) => if c.len() > 1 {
                let (m, left) = spec_map_plan(fs);
                match res {
                    Ok(ComponentPlan::MapObject { map, values }) => map == m && match m.additional_properties {
                        Some(_) => values is None,
                        None => match values {
                            Some(v) => component_plan_is(c[1], left, tf, params, Ok(*v)),
                            None => false,
                        },
                    },
                    Ok(_) => false,
                    Err(d) => m.additional_properties is None && component_plan_is(
                        c[1],
                        left,
                        tf,
                        params,
                        Err(d),
                    ),
                }
            } else {
                false
            },
            None => false,
        },
        Some(GenericType::Vec) | Some(GenericType::LinkedList) | Some(GenericType::SetLike) => match t.children {
            Some(c) => if c.len() > 0 {
                let (ex, f1) = spec_pop_by(fs, FeatureKind::Example);
                match res {
                    Ok(ComponentPlan::Array { array, items }) => exists|x: Option<Feature>, f2: Seq<Feature>|
                        #[trigger] vec_xml_extracted(f1, t.generic_type, Ok(x), f2) && array_plan_is(
                            array,
                            t,
                            ex,
                            x,
                            f2,
                        ) && component_plan_is(c[0], array_items(f2), tf, params, Ok(*items)),
                    Ok(_) => false,
                    Err(d) => vec_xml_extracted(f1, t.generic_type, Err(d), f1) || exists|
                        x: Option<Feature>,
                        f2: Seq<Feature>,
                    |
                        #[trigger] vec_xml_extracted(f1, t.generic_type, Ok(x), f2)
                            && component_plan_is(c[0], array_items(f2), tf, params, Err(d)),
                }
            } else {
                false
            },
            None => false,
        },
        Some(GenericType::Option) => match t.children {
            Some(c) => c.len() > 0 && component_plan_is(c[0], with_nullable(fs), tf, params, res),
            None => false,
        },
        Some(_) => match t.children {
            Some(c) => c.len() > 0 && component_plan_is(c[0], fs, tf, params, res),
            None => false,
        },
        None => match res {
            Ok(ComponentPlan::Schema { plan, members }) => plan@ == spec_non_generic_plan(
                t,
                fs,
                tf,
                params,
            ) && match t.children {
                Some(c) => if t.value_type == ValueType::Tuple {
                    members_plan_ok(c, tf, params, members@)
                } else {
                    members@.len() == 0
                },
                None => members@.len() == 0,
            },
            Ok(_) => false,
            Err(d) => t.value_type == ValueType::Tuple && match t.children {
                Some(c) => members_plan_err(c, tf, params, d),
                None => false,
            },
        },
    }
}

/// Whether the plans are the schemas of the tuple members, in order.
pub open spec fn members_plan_ok(
    cs: Seq<TypeTreeV>,
    tf: TypeFeatures,
    params: Seq<GenericParam>,
    ms: Seq<ComponentPlan>,
) -> bool
    decreases cs, 0nat,
{
    ms.len() == cs.len() && (cs.len() == 0 || (members_plan_ok(
        cs.drop_last(),
        tf,
        params,
        ms.drop_last(),
    ) && component_plan_is(cs.last(), member_features(cs.last()), tf, params, Ok(ms.last()))))
}

/// Whether the error is that of the first tuple member whose schema fails.
pub open spec fn members_plan_err(
    cs: Seq<TypeTreeV>,
    tf: TypeFeatures,
    params: Seq<GenericParam>,
    d: Diagnostics,
) -> bool
    decreases cs, 0nat,
{
    cs.len() > 0 && (members_plan_err(cs.drop_last(), tf, params, d) || (members_have_plans(
        cs.drop_last(),
        tf,
        params,
    ) && component_plan_is(cs.last(), member_features(cs.last()), tf, params, Err(d))))
}

/// Whether every member has a schema.
pub open spec fn members_have_plans(cs: Seq<TypeTreeV>, tf: TypeFeatures, params: Seq<GenericParam>) -> bool
    decreases cs, 1nat,
{
    exists|ms: Seq<ComponentPlan>| #[trigger] plans_given(ms) && members_plan_ok(cs, tf, params, ms)
}

/// A trigger for the plans of the members: it holds of every sequence.
pub open spec fn plans_given(ms: Seq<ComponentPlan>) -> bool {
    true
}

proof fn lemma_members_err_last(
    cs: Seq<TypeTreeV>,
    tf: TypeFeatures,
    params: Seq<GenericParam>,
    ms: Seq<ComponentPlan>,
    d: Diagnostics,
)
    requires
        cs.len() > 0,
        members_plan_ok(cs.drop_last(), tf, params, ms),
        component_plan_is(cs.last(), member_features(cs.last()), tf, params, Err(d)),
    ensures
        members_plan_err(cs, tf, params, d),
{
    assert(plans_given(ms));
    assert(members_have_plans(cs.drop_last(), tf, params));
}

proof fn lemma_vec_xml_err(
    t: TypeTreeV,
    fs: Seq<Feature>,
    tf: TypeFeatures,
    params: Seq<GenericParam>,
    d: Diagnostics,
    f2: Seq<Feature>,
)
    requires
        t.generic_type == Some(GenericType::Vec) || t.generic_type == Some(GenericType::LinkedList)
            || t.generic_type == Some(GenericType::SetLike),
        t.children is Some,
        t.children->Some_0.len() > 0,
        vec_xml_extracted(
            spec_pop_by(fs, FeatureKind::Example).1,
            t.generic_type,
            Err::<Option<Feature>, Diagnostics>(d),
            f2,
        ),
    ensures
        component_plan_is(t, fs, tf, params, Err(d)),
{
    let f1 = spec_pop_by(fs, FeatureKind::Example).1;
    assert(f2 == f1);
}

proof fn lemma_plan_ok(t: TypeTreeV, fs: Seq<Feature>)
    requires
        plan_tree_ok(t),
        t.generic_type is None,
    ensures
        plan_ok(t, fs),
{
}

proof fn lemma_members_err_prefix(cs: Seq<TypeTreeV>, tf: TypeFeatures, params: Seq<GenericParam>, d: Diagnostics, k: int, n: int)
    requires
        0 < k <= n <= cs.len(),
        members_plan_err(cs.take(k), tf, params, d),
    ensures
        members_plan_err(cs.take(n), tf, params, d),
    decreases n - k,
{
    if k < n {
        lemma_members_err_prefix(cs, tf, params, d, k, n - 1);
        assert(cs.take(n).drop_last() =~= cs.take(n - 1));
    }
}

proof fn lemma_trees_plan_ok(cs: Seq<TypeTreeV>, i: int)
    requires
        trees_plan_ok(cs),
        0 <= i < cs.len(),
    ensures
        plan_tree_ok(cs[i]),
    decreases cs.len(),
{
    if i < cs.len() - 1 {
        lemma_trees_plan_ok(cs.drop_last(), i);
    }
}

/// The schemas of the members of a tuple, in order; the first error
/// stops.
fn members_plan(
    children: &Vec<TypeTree>,
    type_features: TypeFeatures,
    generic_params: &Vec<GenericParam>,
) -> (res: Result<Vec<ComponentPlan>, Diagnostics>)
    requires
        trees_plan_ok(trees_view(children@)),
    ensures
        match res {
            Ok(ms) => members_plan_ok(trees_view(children@), type_features, generic_params@, ms@),
            Err(d) => members_plan_err(trees_view(children@), type_features, generic_params@, d),
        },
    decreases *children,
{
    proof {
        lemma_trees_view(children@);
    }
    let ghost cs = trees_view(children@);
    let mut ms: Vec<ComponentPlan> = Vec::new();
    let n = children.len();
    proof {
        assert(cs.take(0) =~= Seq::<TypeTreeV>::empty());
    }
    for i in 0..n
        invariant
            n == children@.len(),
            cs == trees_view(children@),
            cs.len() == n,
            forall|j: int| 0 <= j < n ==> #[trigger] cs[j] == tree_view(children@[j]),
            trees_plan_ok(cs),
            members_plan_ok(cs.take(i as int), type_features, generic_params@, ms@),
    {
        proof {
            lemma_trees_plan_ok(cs, i as int);
            assert(cs.take(i + 1).drop_last() =~= cs.take(i as int));
            assert(cs.take(i + 1).last() == cs[i as int]);
            assert(decreases_to!(*children => children@[i as int]));
        }
        let child = &children[i];
        let mut features: Vec<Feature> = Vec::new();
        if child.is_option() {
            features.push(Feature::Nullable(Nullable(true)));
        }
        proof {
            assert(features@ =~= member_features(tree_view(*child)));
        }
        match component_schema_plan(child, features, type_features, generic_params) {
            Ok(m) => {
                let ghost before = ms@;
                ms.push(m);
                proof {
                    assert(ms@.drop_last() =~= before);
                    assert(ms@.last() == m);
                }
            },
            Err(d) => {
                proof {
                    assert(members_plan_ok(cs.take(i + 1).drop_last(), type_features, generic_params@, ms@));
                    assert(cs.take(i + 1).last() == tree_view(*child));
                    assert(component_plan_is(
                        cs.take(i + 1).last(),
                        member_features(cs.take(i + 1).last()),
                        type_features,
                        generic_params@,
                        Err(d),
                    ));
                    assert(exists|ms2: Seq<ComponentPlan>| #[trigger] members_plan_ok(
                        cs.take(i + 1).drop_last(),
                        type_features,
                        generic_params@,
                        ms2,
                    ));
                    lemma_members_err_last(cs.take(i + 1), type_features, generic_params@, ms@, d);
                    lemma_members_err_prefix(cs, type_features, generic_params@, d, i + 1, n as int);
                    assert(cs.take(n as int) =~= cs);
                }
                return Err(d);
            },
        }
    }
    proof {
        assert(cs.take(n as int) =~= cs);
    }
    Ok(ms)
}

/// The whole schema of a type tree with the features, for a container with
/// the generic parameters, as `component_plan_is` says.
pub fn component_schema_plan(
    tree: &TypeTree,
    features: Vec<Feature>,
    type_features: TypeFeatures,
    generic_params: &Vec<GenericParam>,
) -> (res: Result<ComponentPlan, Diagnostics>)
    requires
        plan_tree_ok(tree_view(*tree)),
    ensures
        component_plan_is(tree_view(*tree), features@, type_features, generic_params@, res),
    decreases *tree,
{
    let ghost t = tree_view(*tree);
    let ghost fs = features@;
    match tree.generic_type {
        Some(GenericType::MapLike) => {
            let children = match &tree.children {
                Some(c) => c,
                None => {
                    return vstd::pervasive::unreached();
                },
            };
            proof {
                lemma_trees_view(children@);
                assert(decreases_to!(*tree => tree.children));
                assert(decreases_to!(tree.children => tree.children->Some_0));
                assert(decreases_to!(*children => children@));
                assert(decreases_to!(children@ => children@[1]));
            }
            let (map, left) = map_schema_plan(features);
            let ghost lv = left@;
            let res = match map.additional_properties {
                Some(_) => Ok(ComponentPlan::MapObject { map, values: None }),
                None => match component_schema_plan(&children[1], left, type_features, generic_params) {
                    Ok(v) => Ok(ComponentPlan::MapObject { map, values: Some(Box::new(v)) }),
                    Err(d) => Err(d),
                },
            };
            proof {
                assert(t.children == Some(trees_view(children@)));
                assert(trees_view(children@)[1] == tree_view(children@[1]));
                assert(component_plan_is(t, fs, type_features, generic_params@, res));
            }
            res
        },
        Some(GenericType::Vec) | Some(GenericType::LinkedList) | Some(GenericType::SetLike) => {
            let children = match &tree.children {
                Some(c) => c,
                None => {
                    return vstd::pervasive::unreached();
                },
            };
            proof {
                lemma_trees_view(children@);
                assert(decreases_to!(*tree => tree.children));
                assert(decreases_to!(tree.children => tree.children->Some_0));
                assert(decreases_to!(*children => children@));
                assert(decreases_to!(children@ => children@[0]));
            }
            let r = vec_schema_plan(tree, features);
            let ghost f1 = spec_pop_by(fs, FeatureKind::Example).1;
            let ghost w = choose|xml: Result<Option<Feature>, Diagnostics>, f2: Seq<Feature>|
                #[trigger] vec_xml_extracted(f1, t.generic_type, xml, f2) && match xml {
                    Err(d) => r == Err::<(ArrayPlan, Vec<Feature>), Diagnostics>(d),
                    Ok(x) => r matches Ok(q) && array_plan_is(
                        q.0,
                        t,
                        spec_pop_by(fs, FeatureKind::Example).0,
                        x,
                        f2,
                    ) && q.1@ == array_items(f2),
                };
            match r {
                Err(d) => {
                    proof {
                        assert(vec_xml_extracted(f1, t.generic_type, w.0, w.1));
                        assert(w.0 == Err::<Option<Feature>, Diagnostics>(d));
                        assert(vec_xml_extracted(f1, t.generic_type, Err::<Option<Feature>, Diagnostics>(d), w.1));
                        assert(t.children == Some(trees_view(children@)));
                        lemma_vec_xml_err(t, fs, type_features, generic_params@, d, w.1);
                    }
                    Err(d)
                },
                Ok((array, items_features)) => {
                    let ghost x = w.0->Ok_0;
                    proof {
                        assert(vec_xml_extracted(f1, t.generic_type, Ok(x), w.1));
                    }
                    let res = match component_schema_plan(&children[0], items_features, type_features, generic_params) {
                        Ok(items) => Ok(ComponentPlan::Array { array, items: Box::new(items) }),
                        Err(d) => Err(d),
                    };
                    proof {
                        assert(t.children == Some(trees_view(children@)));
                        assert(trees_view(children@)[0] == tree_view(children@[0]));
                        assert(component_plan_is(t, fs, type_features, generic_params@, res));
                    }
                    res
                },
            }
        },
        Some(g) => {
            let children = match &tree.children {
                Some(c) => c,
                None => {
                    return vstd::pervasive::unreached();
                },
            };
            proof {
                lemma_trees_view(children@);
                assert(decreases_to!(*tree => tree.children));
                assert(decreases_to!(tree.children => tree.children->Some_0));
                assert(decreases_to!(*children => children@));
                assert(decreases_to!(children@ => children@[0]));
            }
            let mut features = features;
            if g == GenericType::Option && !has_feature_kind(&features, FeatureKind::Nullable) {
                features.push(Feature::Nullable(Nullable(true)));
            }
            proof {
                if g == GenericType::Option {
                    assert(features@ == with_nullable(fs));
                } else {
                    assert(features@ == fs);
                }
            }
            let res = component_schema_plan(&children[0], features, type_features, generic_params);
            proof {
                assert(t.children == Some(trees_view(children@)));
                assert(trees_view(children@)[0] == tree_view(children@[0]));
                assert(component_plan_is(t, fs, type_features, generic_params@, res));
            }
            res
        },
        None => {
            proof {
                lemma_plan_ok(t, fs);
            }
            let members = match &tree.children {
                Some(children) => if tree.value_type == ValueType::Tuple {
                    proof {
                        assert(decreases_to!(*tree => tree.children));
                        assert(decreases_to!(tree.children => tree.children->Some_0));
                    }
                    match members_plan(children, type_features, generic_params) {
                        Ok(ms) => ms,
                        Err(d) => {
                            return Err(d);
                        },
                    }
                } else {
                    Vec::new()
                },
                None => Vec::new(),
            };
            let plan = non_generic_schema_plan(tree, features, type_features, generic_params);
            let res = Ok(ComponentPlan::Schema { plan, members });
            proof {
                assert(component_plan_is(t, fs, type_features, generic_params@, res));
            }
            res
        },
    }
}

/// The schema references that a whole schema collects, in order: those of
/// a map's values, of an array's items, and the reference of a named type
/// (with its own references inside). A tuple's members give none.
pub open spec fn plan_references(p: ComponentPlan) -> Seq<ReferencePlanV>
    decreases p,
{
    match p {
        ComponentPlan::MapObject { values, .. } => match values {
            Some(v) => plan_references(*v),
            None => Seq::empty(),
        },
        ComponentPlan::Array { items, .. } => plan_references(*items),
        ComponentPlan::Schema { plan, .. } => match plan {
            SchemaPlan::Named { reference, .. } => seq![reference@],
            _ => Seq::empty(),
        },
    }
}

/// A copy of a schema reference.
pub fn clone_reference(r: &ReferencePlan) -> (res: ReferencePlan)
    ensures
        res@ == r@,
{
    let mut child_references: Vec<TypePath> = Vec::new();
    let n = r.child_references.len();
    for i in 0..n
        invariant
            n == r.child_references@.len(),
            child_references@.map_values(|p: TypePath| path_view(p)) =~= r.child_references@.take(
                i as int,
            ).map_values(|p: TypePath| path_view(p)),
    {
        let c = clone_path(&r.child_references[i]);
        let ghost before = child_references@;
        child_references.push(c);
        proof {
            assert(r.child_references@.take(i + 1) =~= r.child_references@.take(i as int).push(
                r.child_references@[i as int],
            ));
            assert(child_references@.map_values(|p: TypePath| path_view(p)) =~= before.map_values(
                |p: TypePath| path_view(p),
            ).push(path_view(c)));
            assert(r.child_references@.take(i + 1).map_values(|p: TypePath| path_view(p))
                =~= r.child_references@.take(i as int).map_values(|p: TypePath| path_view(p)).push(
                path_view(r.child_references@[i as int]),
            ));
        }
    }
    proof {
        assert(r.child_references@.take(n as int) =~= r.child_references@);
    }
    ReferencePlan {
        type_path: clone_path(&r.type_path),
        name_suffix: String::from_str(r.name_suffix.as_str()),
        concrete: r.concrete,
        child_references,
    }
}

/// The schema references that a whole schema collects, as
/// `plan_references` says.
pub fn component_references(p: &ComponentPlan) -> (res: Vec<ReferencePlan>)
    ensures
        res@.map_values(|r: ReferencePlan| r@) == plan_references(*p),
    decreases *p,
{
    match p {
        ComponentPlan::MapObject { values, .. } => match values {
            Some(v) => component_references(v),
            None => {
                let res: Vec<ReferencePlan> = Vec::new();
                proof {
                    assert(res@.map_values(|r: ReferencePlan| r@) =~= Seq::<ReferencePlanV>::empty());
                }
                res
            },
        },
        ComponentPlan::Array { items, .. } => component_references(items),
        ComponentPlan::Schema { plan, .. } => {
            let mut res: Vec<ReferencePlan> = Vec::new();
            match plan {
                SchemaPlan::Named { reference, .. } => {
                    res.push(clone_reference(reference));
                },
                _ => {},
            }
            proof {
                assert(res@.map_values(|r: ReferencePlan| r@) =~= plan_references(*p));
            }
            res
        },
    }
}

/// `Box`, `Cow` and `RefCell` give a tree the whole schema of their first
/// type argument with the same features; `Option` gives it that schema
/// with `nullable` added, unless a `nullable` feature is given, which is
/// kept.
pub proof fn law_wrappers_pass_component_plan(
    t: TypeTreeV,
    fs: Seq<Feature>,
    tf: TypeFeatures,
    params: Seq<GenericParam>,
    res: Result<ComponentPlan, Diagnostics>,
)
    requires
        t.generic_type == Some(GenericType::Box) || t.generic_type == Some(GenericType::Cow)
            || t.generic_type == Some(GenericType::RefCell) || t.generic_type == Some(
            GenericType::Option,
        ),
        t.children is Some,
        t.children->Some_0.len() > 0,
    ensures
        t.generic_type != Some(GenericType::Option) ==> component_plan_is(t, fs, tf, params, res)
            == component_plan_is(t.children->Some_0[0], fs, tf, params, res),
        t.generic_type == Some(GenericType::Option) ==> component_plan_is(t, fs, tf, params, res)
            == component_plan_is(
            t.children->Some_0[0],
            if has_kind(fs, FeatureKind::Nullable) {
                fs
            } else {
                fs.push(Feature::Nullable(Nullable(true)))
            },
            tf,
            params,
            res,
        ),
{
}

/// The schema of a single unnamed field (or of fields that are all the
/// same): the whole schema of the type, and the `pattern` that it carries.
pub struct UnnamedSchemaPlan {
    pub schema: ComponentPlan,
    pub pattern: Option<Feature>,
}

/// The tree whose schema a field gets: its alias's, where the
/// configuration gives one, else its own.
pub open spec fn schema_tree(tree: TypeTree, alias: Option<TypeTree>) -> TypeTreeV {
    match alias {
        Some(a) => tree_view(a),
        None => tree_view(tree),
    }
}

/// The schema of an unnamed struct whose fields are all of the type of the
/// tree (that of its `value_type` feature where it has one; its alias's
/// tree, where the configuration gives one, takes its place): the first
/// `pattern` feature is taken out and carried by the schema, and the whole
/// schema of the type is planned with the other features.
pub fn unnamed_schema_plan(
    tree: &TypeTree,
    alias: &Option<TypeTree>,
    features: Vec<Feature>,
    type_features: TypeFeatures,
    generic_params: &Vec<GenericParam>,
) -> (res: Result<UnnamedSchemaPlan, Diagnostics>)
    requires
        plan_tree_ok(schema_tree(*tree, *alias)),
    ensures
        match res {
            Ok(u) => u.pattern == spec_pop_by(features@, FeatureKind::Pattern).0 && component_plan_is(
                schema_tree(*tree, *alias),
                spec_pop_by(features@, FeatureKind::Pattern).1,
                type_features,
                generic_params@,
                Ok(u.schema),
            ),
            Err(d) => component_plan_is(
                schema_tree(*tree, *alias),
                spec_pop_by(features@, FeatureKind::Pattern).1,
                type_features,
                generic_params@,
                Err(d),
            ),
        },
{
    let mut features = features;
    let pattern = pop_by(&mut features, FeatureKind::Pattern);
    let target = match alias {
        Some(a) => a,
        None => tree,
    };
    match component_schema_plan(target, features, type_features, generic_params) {
        Ok(schema) => Ok(UnnamedSchemaPlan { schema, pattern }),
        Err(d) => Err(d),
    }
}

/// How a named field's property schema is given: by a `schema_with`
/// function, as a flattened map, or by the whole schema of its type.
pub enum PropertyPlan {
    SchemaWith(Feature),
    FlattenedMap { map: FlattenedMapPlan, values: Box<ComponentPlan> },
    Schema(ComponentPlan),
}

/// Whether `res` is the property schema of a named field with the given
/// `schema_with` feature and serde `flatten`, whose schema has the type
/// tree `t`, with the features: a `schema_with` feature gives it; a
/// flattened map field gets `spec_flattened_map_plan` of the features and
/// the schema of the map's value type with the features left; any other
/// field the whole schema of its type.
pub open spec fn property_plan_is(
    schema_with: Option<Feature>,
    flatten: bool,
    t: TypeTreeV,
    fs: Seq<Feature>,
    tf: TypeFeatures,
    params: Seq<GenericParam>,
    res: Result<PropertyPlan, Diagnostics>,
) -> bool {
    match schema_with {
        Some(f) => res == Ok::<PropertyPlan, Diagnostics>(PropertyPlan::SchemaWith(f)),
        None => if flatten && t.generic_type == Some(GenericType::MapLike) {
            let (m, left) = spec_flattened_map_plan(fs);
            match t.children {
                Some(c) => c.len() > 1 && match res {
                    Ok(PropertyPlan::FlattenedMap { map, values }) => map == m && component_plan_is(
                        c[1],
                        left,
                        tf,
                        params,
                        Ok(*values),
                    ),
                    Ok(_) => false,
                    Err(d) => component_plan_is(c[1], left, tf, params, Err(d)),
                },
                None => false,
            }
        } else {
            match res {
                Ok(PropertyPlan::Schema(p)) => component_plan_is(t, fs, tf, params, Ok(p)),
                Ok(_) => false,
                Err(d) => component_plan_is(t, fs, tf, params, Err(d)),
            }
        },
    }
}

/// The property schema of a named field, given its `schema_with` feature,
/// its serde `flatten`, the features left for its schema (see
/// `named_field_options`), its type tree (that of its `value_type` feature
/// where it has one) and its alias's tree, which takes its place where the
/// configuration gives one; as `property_plan_is` says.
pub fn named_property_plan(
    schema_with: Option<Feature>,
    flatten: bool,
    features: Vec<Feature>,
    tree: &TypeTree,
    alias: &Option<TypeTree>,
    type_features: TypeFeatures,
    generic_params: &Vec<GenericParam>,
) -> (res: Result<PropertyPlan, Diagnostics>)
    requires
        plan_tree_ok(schema_tree(*tree, *alias)),
    ensures
        property_plan_is(
            schema_with,
            flatten,
            schema_tree(*tree, *alias),
            features@,
            type_features,
            generic_params@,
            res,
        ),
{
    if let Some(f) = schema_with {
        return Ok(PropertyPlan::SchemaWith(f));
    }
    let target = match alias {
        Some(a) => a,
        None => tree,
    };
    if flatten && target.is_map() {
        let children = match &target.children {
            Some(c) => c,
            None => {
                return vstd::pervasive::unreached();
            },
        };
        proof {
            lemma_trees_view(children@);
            assert(tree_view(*target).children == Some(trees_view(children@)));
            assert(trees_view(children@)[1] == tree_view(children@[1]));
        }
        let (map, left) = flattened_map_schema_plan(features);
        match component_schema_plan(&children[1], left, type_features, generic_params) {
            Ok(values) => Ok(PropertyPlan::FlattenedMap { map, values: Box::new(values) }),
            Err(d) => Err(d),
        }
    } else {
        match component_schema_plan(target, features, type_features, generic_params) {
            Ok(p) => Ok(PropertyPlan::Schema(p)),
            Err(d) => Err(d),
        }
    }
}

/// The schema references of a property: those of its whole schema; a
/// `schema_with` function or a flattened map gives none.
pub open spec fn property_references(p: PropertyPlan) -> Seq<ReferencePlanV> {
    match p {
        PropertyPlan::Schema(c) => plan_references(c),
        _ => Seq::empty(),
    }
}

/// The schema references that a named struct collects from its fields, in
/// order: those of each property of a field that serde does not skip.
pub open spec fn fields_references(ps: Seq<PropertyPlan>, skipped: Seq<bool>) -> Seq<ReferencePlanV>
    decreases ps.len(),
{
    if ps.len() == 0 {
        Seq::empty()
    } else {
        fields_references(ps.drop_last(), skipped) + if skipped[ps.len() - 1] {
            Seq::empty()
        } else {
            property_references(ps.last())
        }
    }
}

/// The schema references that a named struct collects from the property
/// schemas of its fields, given which fields serde skips; as
/// `fields_references` says.
pub fn named_fields_references(properties: &Vec<PropertyPlan>, skipped: &Vec<bool>) -> (res: Vec<ReferencePlan>)
    requires
        properties@.len() == skipped@.len(),
    ensures
        res@.map_values(|r: ReferencePlan| r@) == fields_references(properties@, skipped@),
{
    let mut res: Vec<ReferencePlan> = Vec::new();
    let n = properties.len();
    proof {
        assert(res@.map_values(|r: ReferencePlan| r@) =~= fields_references(properties@.take(0), skipped@));
    }
    for i in 0..n
        invariant
            n == properties@.len(),
            n == skipped@.len(),
            res@.map_values(|r: ReferencePlan| r@) =~= fields_references(properties@.take(i as int), skipped@),
    {
        proof {
            assert(properties@.take(i + 1).drop_last() =~= properties@.take(i as int));
            assert(properties@.take(i + 1).last() == properties@[i as int]);
        }
        if !skipped[i] {
            match &properties[i] {
                PropertyPlan::Schema(c) => {
                    let refs = component_references(c);
                    let ghost before = res@;
                    let m = refs.len();
                    for j in 0..m
                        invariant
                            m == refs@.len(),
                            res@.map_values(|r: ReferencePlan| r@) =~= before.map_values(
                                |r: ReferencePlan| r@,
                            ) + refs@.take(j as int).map_values(|r: ReferencePlan| r@),
                    {
                        let ghost prev = res@;
                        res.push(clone_reference(&refs[j]));
                        proof {
                            assert(refs@.take(j + 1) =~= refs@.take(j as int).push(refs@[j as int]));
                            assert(res@.map_values(|r: ReferencePlan| r@) =~= prev.map_values(
                                |r: ReferencePlan| r@,
                            ).push(refs@[j as int]@));
                            assert(refs@.take(j + 1).map_values(|r: ReferencePlan| r@) =~= refs@.take(
                                j as int,
                            ).map_values(|r: ReferencePlan| r@).push(refs@[j as int]@));
                        }
                    }
                    proof {
                        assert(refs@.take(m as int) =~= refs@);
                    }
                },
                _ => {},
            }
        }
    }
    proof {
        assert(properties@.take(n as int) =~= properties@);
    }
    res
}

fn tree_paths_exec(t: &TypeTree) -> (res: bool)
    ensures
        res == tree_paths_ok(tree_view(*t)),
    decreases *t,
{
    let own = match &t.path {
        Some(p) => {
            proof {
                crate::rust_type::lemma_segments_view(p.segments@);
            }
            p.segments.len() > 0
        },
        None => true,
    };
    if !own {
        return false;
    }
    match &t.children {
        Some(c) => {
            assert(decreases_to!(*t => *c));
            trees_paths_exec(c)
        },
        None => true,
    }
}

fn trees_paths_exec(v: &Vec<TypeTree>) -> (res: bool)
    ensures
        res == trees_paths_ok(trees_view(v@)),
    decreases *v,
{
    let n = v.len();
    let mut acc = true;
    proof {
        lemma_trees_view(v@);
        assert(v@.take(0) =~= Seq::<TypeTree>::empty());
    }
    for i in 0..n
        invariant
            n == v@.len(),
            trees_view(v@).len() == v@.len(),
            forall|j: int| 0 <= j < v@.len() ==> #[trigger] trees_view(v@)[j] == tree_view(v@[j]),
            acc == trees_paths_ok(trees_view(v@.take(i as int))),
    {
        assert(decreases_to!(*v => v@[i as int]));
        proof {
            crate::type_tree::lemma_trees_take_view(v@, i as int);
        }
        let here = tree_paths_exec(&v[i]);
        acc = acc && here;
    }
    proof {
        assert(v@.take(n as int) =~= v@);
    }
    acc
}

fn tree_named_exec(t: &TypeTree) -> (res: bool)
    ensures
        res == crate::type_tree::tree_named(tree_view(*t)),
    decreases *t,
{
    let own = match &t.path {
        Some(p) => {
            proof {
                crate::rust_type::lemma_segments_view(p.segments@);
            }
            p.segments.len() > 0
        },
        None => false,
    };
    if !own {
        return false;
    }
    match &t.children {
        Some(c) => {
            assert(decreases_to!(*t => *c));
            trees_named_exec(c)
        },
        None => true,
    }
}

fn trees_named_exec(v: &Vec<TypeTree>) -> (res: bool)
    ensures
        res == trees_named(trees_view(v@)),
    decreases *v,
{
    let n = v.len();
    let mut acc = true;
    proof {
        lemma_trees_view(v@);
        assert(v@.take(0) =~= Seq::<TypeTree>::empty());
    }
    for i in 0..n
        invariant
            n == v@.len(),
            trees_view(v@).len() == v@.len(),
            forall|j: int| 0 <= j < v@.len() ==> #[trigger] trees_view(v@)[j] == tree_view(v@[j]),
            acc == trees_named(trees_view(v@.take(i as int))),
    {
        assert(decreases_to!(*v => v@[i as int]));
        proof {
            crate::type_tree::lemma_trees_take_view(v@, i as int);
        }
        let here = tree_named_exec(&v[i]);
        acc = acc && here;
    }
    proof {
        assert(v@.take(n as int) =~= v@);
    }
    acc
}

fn node_refs_ok_exec(t: &TypeTree) -> (res: bool)
    ensures
        res == crate::type_tree::node_refs_ok(tree_view(*t)),
    decreases *t,
{
    match &t.children {
        Some(c) => {
            assert(decreases_to!(*t => *c));
            child_refs_ok_exec(c)
        },
        None => !(t.value_type == ValueType::Object) || t.path.is_some(),
    }
}

fn child_refs_ok_exec(v: &Vec<TypeTree>) -> (res: bool)
    ensures
        res == child_refs_ok(trees_view(v@)),
    decreases *v,
{
    let n = v.len();
    let mut acc = true;
    proof {
        lemma_trees_view(v@);
        assert(v@.take(0) =~= Seq::<TypeTree>::empty());
    }
    for i in 0..n
        invariant
            n == v@.len(),
            trees_view(v@).len() == v@.len(),
            forall|j: int| 0 <= j < v@.len() ==> #[trigger] trees_view(v@)[j] == tree_view(v@[j]),
            acc == child_refs_ok(trees_view(v@.take(i as int))),
    {
        assert(decreases_to!(*v => v@[i as int]));
        proof {
            crate::type_tree::lemma_trees_take_view(v@, i as int);
        }
        let here = node_refs_ok_exec(&v[i]);
        acc = acc && here;
    }
    proof {
        assert(v@.take(n as int) =~= v@);
    }
    acc
}

fn tree_plan_ok_exec(t: &TypeTree) -> (res: bool)
    ensures
        res == plan_tree_ok(tree_view(*t)),
    decreases *t,
{
    if !tree_paths_exec(t) {
        return false;
    }
    match t.generic_type {
        Some(g) => {
            let children = match &t.children {
                Some(c) => c,
                None => {
                    return false;
                },
            };
            proof {
                lemma_trees_view(children@);
                assert(decreases_to!(*t => *children));
            }
            let k: usize = if g == GenericType::MapLike {
                1
            } else {
                0
            };
            if children.len() <= k {
                return false;
            }
            assert(decreases_to!(*children => children@[k as int]));
            tree_plan_ok_exec(&children[k])
        },
        None => {
            if t.value_type == ValueType::Primitive && t.path.is_none() {
                return false;
            }
            if t.value_type == ValueType::Object && !t.is_object() {
                if t.path.is_none() {
                    return false;
                }
                if let Some(c) = &t.children {
                    if !trees_named_exec(c) || !child_refs_ok_exec(c) {
                        return false;
                    }
                }
            }
            if t.value_type == ValueType::Tuple {
                if let Some(c) = &t.children {
                    assert(decreases_to!(*t => *c));
                    return trees_plan_ok_exec(c);
                }
            }
            true
        },
    }
}

fn trees_plan_ok_exec(v: &Vec<TypeTree>) -> (res: bool)
    ensures
        res == trees_plan_ok(trees_view(v@)),
    decreases *v,
{
    let n = v.len();
    let mut acc = true;
    proof {
        lemma_trees_view(v@);
        assert(v@.take(0) =~= Seq::<TypeTree>::empty());
    }
    for i in 0..n
        invariant
            n == v@.len(),
            trees_view(v@).len() == v@.len(),
            forall|j: int| 0 <= j < v@.len() ==> #[trigger] trees_view(v@)[j] == tree_view(v@[j]),
            acc == trees_plan_ok(trees_view(v@.take(i as int))),
    {
        assert(decreases_to!(*v => v@[i as int]));
        proof {
            crate::type_tree::lemma_trees_take_view(v@, i as int);
        }
        let here = tree_plan_ok_exec(&v[i]);
        acc = acc && here;
    }
    proof {
        assert(v@.take(n as int) =~= v@);
    }
    acc
}

/// Whether the whole schema of the tree can be planned, as
/// `plan_tree_ok` says.
pub fn tree_plan_ok(tree: &TypeTree) -> (res: bool)
    ensures
        res == plan_tree_ok(tree_view(*tree)),
{
    tree_plan_ok_exec(tree)
}

/// The whole schema of a type tree, as `component_schema_plan` gives it;
/// `None` where the tree has a part that is missing (a wrapper without its
/// type argument, a primitive or a named object without a path, an
/// argument of a named object without one).
pub fn checked_component_schema_plan(
    tree: &TypeTree,
    features: Vec<Feature>,
    type_features: TypeFeatures,
    generic_params: &Vec<GenericParam>,
) -> (res: Option<Result<ComponentPlan, Diagnostics>>)
    ensures
        match res {
            Some(r) => plan_tree_ok(tree_view(*tree)) && component_plan_is(
                tree_view(*tree),
                features@,
                type_features,
                generic_params@,
                r,
            ),
            None => !plan_tree_ok(tree_view(*tree)),
        },
{
    if !tree_plan_ok(tree) {
        return None;
    }
    Some(component_schema_plan(tree, features, type_features, generic_params))
}

} // verus!
