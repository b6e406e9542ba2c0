//! The schema references that a `ToSchema` implementation collects.
use vstd::prelude::*;
use vstd::string::StringExecFns;

use crate::attrs::GenericParam;
use crate::config::SchemaCollect;
use crate::features::{dotted, As, Bound};
use crate::rust_type::TypeSegment;

verus! {

/// What a schema reference is, as far as collecting it reads it: whether
/// it stands for a recursive type that is not followed, whether it is
/// partial (a generic argument whose schema is not known), and whether its
/// schema is inlined.
pub struct SchemaRefInfo {
    pub no_recursion: bool,
    pub is_partial: bool,
    pub is_inline: bool,
}

/// Which references go where: the positions of the references whose
/// schemas are collected, of those whose own references are collected, and
/// of the generic (partial) references.
pub struct SchemaRefPlan {
    pub collected: Vec<usize>,
    pub references: Vec<usize>,
    pub generic: Vec<usize>,
}

/// The positions among the first `n` references that meet `pred`, in order.
pub open spec fn positions_where(rs: Seq<SchemaRefInfo>, n: nat, pred: spec_fn(SchemaRefInfo) -> bool) -> Seq<nat>
    decreases n,
{
    if n == 0 {
        Seq::empty()
    } else {
        let front = positions_where(rs, (n - 1) as nat, pred);
        if pred(rs[n - 1]) {
            front.push((n - 1) as nat)
        } else {
            front
        }
    }
}

/// A reference whose schema is known, of a type that is followed.
pub open spec fn is_concrete(r: SchemaRefInfo) -> bool {
    !r.no_recursion && !r.is_partial
}

/// A reference whose schema is collected: a concrete one that is not
/// inlined, or any concrete one where all schemas are collected.
pub open spec fn is_collected(r: SchemaRefInfo, collect: SchemaCollect) -> bool {
    is_concrete(r) && (collect == SchemaCollect::All || !r.is_inline)
}

/// A reference of a generic argument, of a type that is followed.
pub open spec fn is_generic(r: SchemaRefInfo) -> bool {
    !r.no_recursion && r.is_partial
}

/// The view of positions.
pub open spec fn positions_view(v: Vec<usize>) -> Seq<nat> {
    v@.map_values(|i: usize| i as nat)
}

/// Sorts the schema references of a type's schema: references of
/// recursive types that are not followed are left out; partial references
/// are generic; the others have their references collected, and their
/// schemas too where they are not inlined or all schemas are collected.
pub fn schema_reference_plan(refs: &Vec<SchemaRefInfo>, collect: SchemaCollect) -> (res: SchemaRefPlan)
    ensures
        positions_view(res.collected) == positions_where(
            refs@,
            refs@.len(),
            |r: SchemaRefInfo| is_collected(r, collect),
        ),
        positions_view(res.references) == positions_where(refs@, refs@.len(), |r: SchemaRefInfo| is_concrete(r)),
        positions_view(res.generic) == positions_where(refs@, refs@.len(), |r: SchemaRefInfo| is_generic(r)),
{
    let mut collected: Vec<usize> = Vec::new();
    let mut references: Vec<usize> = Vec::new();
    let mut generic: Vec<usize> = Vec::new();
    let n = refs.len();
    proof {
        assert(positions_view(collected) =~= Seq::<nat>::empty());
        assert(positions_view(references) =~= Seq::<nat>::empty());
        assert(positions_view(generic) =~= Seq::<nat>::empty());
    }
    for i in 0..n
        invariant
            n == refs@.len(),
            positions_view(collected) == positions_where(
                refs@,
                i as nat,
                |r: SchemaRefInfo| is_collected(r, collect),
            ),
            positions_view(references) == positions_where(refs@, i as nat, |r: SchemaRefInfo| is_concrete(r)),
            positions_view(generic) == positions_where(refs@, i as nat, |r: SchemaRefInfo| is_generic(r)),
    {
        let r = &refs[i];
        if !r.no_recursion {
            if r.is_partial {
                let ghost front = positions_view(generic);
                generic.push(i);
                assert(positions_view(generic) =~= front.push(i as nat));
            } else {
                let ghost front = positions_view(references);
                references.push(i);
                assert(positions_view(references) =~= front.push(i as nat));
                let all = match collect {
                    SchemaCollect::All => true,
                    SchemaCollect::NonInlined => false,
                };
                if all || !r.is_inline {
                    let ghost cfront = positions_view(collected);
                    collected.push(i);
                    assert(positions_view(collected) =~= cfront.push(i as nat));
                }
            }
        }
    }
    SchemaRefPlan { collected, references, generic }
}

/// The where-clause predicates that a schema's implementations get: the
/// text of a `bound` feature, or `: utoipa::ToSchema` on each named type
/// parameter.
pub enum SchemaBounds {
    Given(String),
    ToSchema(Vec<String>),
}

/// The names of the type parameters, in order.
pub open spec fn type_param_names(params: Seq<GenericParam>) -> Seq<Seq<char>>
    decreases params.len(),
{
    if params.len() == 0 {
        Seq::empty()
    } else {
        let front = type_param_names(params.drop_last());
        match params.last() {
            GenericParam::Type(n) => front.push(n@),
            _ => front,
        }
    }
}

/// The name of a type's schema: the path of its `as` feature with `.` for
/// `::`, else the type's identifier.
pub open spec fn spec_schema_name(ident: Seq<char>, schema_as: Option<As>) -> Seq<char> {
    match schema_as {
        Some(a) => dotted(a.0.segments@.map_values(|s: TypeSegment| s.ident@)),
        None => ident,
    }
}

/// The name of a type's schema, as `ToSchema::name` gives it.
pub fn schema_name(ident: &str, schema_as: Option<&As>) -> (res: String)
    ensures
        res@ == spec_schema_name(
            ident@,
            match schema_as {
                Some(a) => Some(*a),
                None => None,
            },
        ),
{
    match schema_as {
        Some(a) => a.to_schema_formatted_string(),
        None => String::from_str(ident),
    }
}

/// The where-clause predicates of a schema's implementations: those of its
/// `bound` feature where it has one, else `ToSchema` on every type
/// parameter.
pub fn schema_bounds(bound: Option<&Bound>, params: &Vec<GenericParam>) -> (res: SchemaBounds)
    ensures
        match bound {
            Some(b) => res matches SchemaBounds::Given(t) && t@ == b.0@,
            None => res matches SchemaBounds::ToSchema(names) && names@.map_values(
                |n: String| n@,
            ) == type_param_names(params@),
        },
{
    match bound {
        Some(b) => SchemaBounds::Given(b.0.clone()),
        None => {
            let mut names: Vec<String> = Vec::new();
            let n = params.len();
            for i in 0..n
                invariant
                    n == params@.len(),
                    names@.map_values(|s: String| s@) =~= type_param_names(params@.take(i as int)),
            {
                proof {
                    assert(params@.take(i + 1).drop_last() =~= params@.take(i as int));
                }
                match &params[i] {
                    GenericParam::Type(t) => {
                        let ghost front = names@.map_values(|s: String| s@);
                        names.push(t.clone());
                        proof {
                            assert(names@.map_values(|s: String| s@) =~= front.push(t@));
                        }
                    },
                    _ => {},
                }
            }
            proof {
                assert(params@.take(n as int) =~= params@);
            }
            SchemaBounds::ToSchema(names)
        },
    }
}

} // verus!
