//! The layout of the schema of a struct with unnamed fields: one schema for
//! the fields where they are all of one type, an array of as many items
//! where there are several.
use vstd::prelude::*;

use crate::diagnostics::Diagnostics;
use crate::rust_type::{lemma_types_view, type_view, types_view, RustType, TypeV};
use crate::type_tree::{
    from_type, is_error, spec_from_type, tree_eq, tree_view, Outcome, TypeTree, TypeTreeV,
};
use vstd::string::StringExecFns;

verus! {

/// The layout of the schema: the type tree of the first field, whether all
/// fields have its type, and the number of items of the array where there
/// is more than one field.
pub struct UnnamedStructLayout {
    pub first: TypeTree,
    pub all_fields_are_same: bool,
    pub array_len: Option<usize>,
}

/// The view of an [`UnnamedStructLayout`].
pub struct UnnamedLayoutV {
    pub first: TypeTreeV,
    pub all_fields_are_same: bool,
    pub array_len: Option<nat>,
}

/// The view of a layout.
pub open spec fn unnamed_layout_view(l: UnnamedStructLayout) -> UnnamedLayoutV {
    UnnamedLayoutV {
        first: tree_view(l.first),
        all_fields_are_same: l.all_fields_are_same,
        array_len: match l.array_len {
            Some(n) => Some(n as nat),
            None => None,
        },
    }
}

/// The type trees of the types in order; the first failure stops.
pub open spec fn trees_from_types(ts: Seq<TypeV>) -> Outcome<Seq<TypeTreeV>>
    decreases ts.len(),
{
    if ts.len() == 0 {
        Outcome::Done(Seq::empty())
    } else {
        match trees_from_types(ts.drop_last()) {
            Outcome::Done(front) => match spec_from_type(ts.last()) {
                Outcome::Done(t) => Outcome::Done(front.push(t)),
                Outcome::Fail(e) => Outcome::Fail(e),
                Outcome::Abort => Outcome::Abort,
            },
            Outcome::Fail(e) => Outcome::Fail(e),
            Outcome::Abort => Outcome::Abort,
        }
    }
}

/// Whether every tree is `x`.
pub open spec fn all_equal_to(rs: Seq<TypeTreeV>, x: TypeTreeV) -> bool {
    forall|i: int| 0 <= i < rs.len() ==> #[trigger] rs[i] == x
}

proof fn lemma_all_equal_push(rs: Seq<TypeTreeV>, y: TypeTreeV, x: TypeTreeV)
    ensures
        all_equal_to(rs.push(y), x) == (all_equal_to(rs, x) && y == x),
{
    let s = rs.push(y);
    if all_equal_to(s, x) {
        assert(s[rs.len() as int] == y);
        assert forall|i: int| 0 <= i < rs.len() implies #[trigger] rs[i] == x by {
            assert(s[i] == rs[i]);
        }
    }
    if all_equal_to(rs, x) && y == x {
        assert forall|i: int| 0 <= i < s.len() implies #[trigger] s[i] == x by {
            if i < rs.len() {
                assert(s[i] == rs[i]);
            }
        }
    }
}

/// The message for a `pattern` on a struct with several fields.
pub open spec fn pattern_message() -> Seq<char> {
    "Pattern attribute is not allowed for unnamed structs with multiple fields"@
}

/// The layout of the schema of a struct whose unnamed fields have the types
/// `ts` (at least one), given whether it has a `pattern` feature: the tree
/// of the first field, then those of the others (the first error stops);
/// the fields are all the same where there is one, or every other tree is
/// the first; a `pattern` is refused where several fields are all the same.
pub open spec fn spec_unnamed_layout(ts: Seq<TypeV>, has_pattern: bool) -> Outcome<UnnamedLayoutV> {
    match spec_from_type(ts[0]) {
        Outcome::Fail(e) => Outcome::Fail(e),
        Outcome::Abort => Outcome::Abort,
        Outcome::Done(first) => {
            let rest = if ts.len() == 1 {
                Outcome::Done(Seq::empty())
            } else {
                trees_from_types(ts.skip(1))
            };
            match rest {
                Outcome::Fail(e) => Outcome::Fail(e),
                Outcome::Abort => Outcome::Abort,
                Outcome::Done(rs) => {
                    let same = ts.len() == 1 || all_equal_to(rs, first);
                    if same && has_pattern && ts.len() > 1 {
                        Outcome::Fail(pattern_message())
                    } else {
                        Outcome::Done(
                            UnnamedLayoutV {
                                first,
                                all_fields_are_same: same,
                                array_len: if ts.len() > 1 {
                                    Some(ts.len())
                                } else {
                                    None
                                },
                            },
                        )
                    }
                },
            }
        },
    }
}

proof fn lemma_trees_from_types_prefix(ts: Seq<TypeV>, k: int, n: int)
    requires
        0 <= k <= n <= ts.len(),
        !(trees_from_types(ts.take(k)) is Done),
    ensures
        trees_from_types(ts.take(n)) == trees_from_types(ts.take(k)),
    decreases n - k,
{
    if k < n {
        lemma_trees_from_types_prefix(ts, k, n - 1);
        assert(ts.take(n).drop_last() =~= ts.take(n - 1));
    }
}

/// Lays out the schema of a struct with the unnamed fields of types
/// `fields`, given whether it has a `pattern` feature: where every field
/// has the first field's type, the schema is that type's (a `pattern` is
/// refused on several such fields); several fields make an array of as many
/// items.
pub fn unnamed_struct_layout(fields: &Vec<RustType>, has_pattern: bool) -> (res: Result<UnnamedStructLayout, Diagnostics>)
    requires
        fields@.len() > 0,
        !(spec_unnamed_layout(types_view(fields@), has_pattern) is Abort),
    ensures
        match res {
            Ok(l) => spec_unnamed_layout(types_view(fields@), has_pattern) == Outcome::Done(
                unnamed_layout_view(l),
            ),
            Err(d) => spec_unnamed_layout(types_view(fields@), has_pattern) is Fail && is_error(
                d,
                spec_unnamed_layout(types_view(fields@), has_pattern)->Fail_0,
            ),
        },
{
    proof {
        lemma_types_view(fields@);
    }
    let ghost tv = types_view(fields@);
    let n = fields.len();
    let first = match from_type(&fields[0]) {
        Ok(t) => t,
        Err(d) => {
            return Err(d);
        },
    };
    let mut same = true;
    if n > 1 {
        let ghost rest = tv.skip(1);
        let ghost mut rs: Seq<TypeTreeV> = Seq::empty();
        proof {
            assert(rest.take(0) =~= Seq::<TypeV>::empty());
        }
        let mut i: usize = 1;
        while i < n
            invariant
                1 <= i <= n,
                n == fields@.len(),
                tv == types_view(fields@),
                tv.len() == n,
                forall|j: int| 0 <= j < n ==> #[trigger] tv[j] == type_view(fields@[j]),
                rest == tv.skip(1),
                spec_from_type(tv[0]) == Outcome::Done(tree_view(first)),
                !(spec_unnamed_layout(tv, has_pattern) is Abort),
                trees_from_types(rest.take(i - 1)) == Outcome::Done(rs),
                rs.len() == i - 1,
                same == all_equal_to(rs, tree_view(first)),
            decreases n - i,
        {
            proof {
                assert(rest.take(i as int).drop_last() =~= rest.take(i - 1));
                assert(rest.take(i as int).last() == tv[i as int]);
                if spec_from_type(tv[i as int]) is Abort {
                    lemma_trees_from_types_prefix(rest, i as int, rest.len() as int);
                    assert(rest.take(rest.len() as int) =~= rest);
                }
            }
            match from_type(&fields[i]) {
                Ok(t) => {
                    let eq = tree_eq(&t, &first);
                    proof {
                        lemma_all_equal_push(rs, tree_view(t), tree_view(first));
                        rs = rs.push(tree_view(t));
                    }
                    same = same && eq;
                },
                Err(d) => {
                    proof {
                        lemma_trees_from_types_prefix(rest, i as int, rest.len() as int);
                        assert(rest.take(rest.len() as int) =~= rest);
                    }
                    return Err(d);
                },
            }
            i = i + 1;
        }
        proof {
            assert(rest.take(n - 1) =~= rest);
        }
        if same && has_pattern {
            return Err(
                Diagnostics::new(
                    String::from_str("Pattern attribute is not allowed for unnamed structs with multiple fields"),
                ),
            );
        }
    }
    let array_len = if n > 1 {
        Some(n)
    } else {
        None
    };
    Ok(UnnamedStructLayout { first, all_fields_are_same: same, array_len })
}

} // verus!
