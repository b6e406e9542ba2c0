//! Rust types as the derive macros read them, as plain values, and their
//! views.
use vstd::prelude::*;

verus! {

/// A Rust type.
pub enum RustType {
    /// A path type such as `std::vec::Vec<T>`.
    Path(TypePath),
    /// `&T` or `&mut T`.
    Reference(Box<RustType>),
    /// `(A, B, ...)`; `()` is the unit type.
    Tuple(Vec<RustType>),
    /// A type in invisible delimiters.
    Group(Box<RustType>),
    /// `[T]`.
    Slice(Box<RustType>),
    /// `[T; N]`.
    Array(Box<RustType>),
    /// `dyn Trait + ...`, by its bounds in order: the path of each trait
    /// bound, nothing for another bound (a lifetime).
    TraitObject(Vec<Option<TypePath>>),
    /// Any other type (a function pointer, `impl Trait`, a macro, ...).
    Other,
}

/// A path: its segments in order.
pub struct TypePath {
    pub segments: Vec<TypeSegment>,
}

/// One segment of a path: an identifier and its arguments.
pub struct TypeSegment {
    pub ident: String,
    pub arguments: PathArguments,
}

/// The arguments of a path segment.
pub enum PathArguments {
    Empty,
    /// `<A, B, ...>`
    AngleBracketed(Vec<TypeArgument>),
    /// `(A, B) -> C`
    Parenthesized,
}

/// One argument between angle brackets.
pub enum TypeArgument {
    Type(RustType),
    /// A lifetime, by its name without the apostrophe.
    Lifetime(String),
    Const,
    Other,
}

/// The view of a [`RustType`].
pub enum TypeV {
    Path(Seq<SegmentV>),
    Reference(Box<TypeV>),
    Tuple(Seq<TypeV>),
    Group(Box<TypeV>),
    Slice(Box<TypeV>),
    Array(Box<TypeV>),
    TraitObject(Option<Seq<SegmentV>>),
    Other,
}

/// The view of a [`TypeSegment`].
pub struct SegmentV {
    pub ident: Seq<char>,
    pub arguments: ArgsV,
}

/// The view of [`PathArguments`].
pub enum ArgsV {
    Empty,
    AngleBracketed(Seq<GenericArgV>),
    Parenthesized,
}

/// The view of a [`TypeArgument`].
pub enum GenericArgV {
    Type(TypeV),
    Lifetime(Seq<char>),
    Const,
    Other,
}

/// The view of a type.
pub open spec fn type_view(t: RustType) -> TypeV
    decreases t,
{
    match t {
        RustType::Path(p) => TypeV::Path(segments_view(p.segments@)),
        RustType::Reference(b) => TypeV::Reference(Box::new(type_view(*b))),
        RustType::Tuple(v) => TypeV::Tuple(types_view(v@)),
        RustType::Group(b) => TypeV::Group(Box::new(type_view(*b))),
        RustType::Slice(b) => TypeV::Slice(Box::new(type_view(*b))),
        RustType::Array(b) => TypeV::Array(Box::new(type_view(*b))),
        RustType::TraitObject(bs) => TypeV::TraitObject(first_bound_view(bs@)),
        RustType::Other => TypeV::Other,
    }
}

/// The view of the first trait bound of a trait object's bounds: the path
/// of the first bound that is a trait, if one is.
pub open spec fn first_bound_view(s: Seq<Option<TypePath>>) -> Option<Seq<SegmentV>>
    decreases s,
{
    if s.len() == 0 {
        None
    } else {
        match first_bound_view(s.drop_last()) {
            Some(p) => Some(p),
            None => match s.last() {
                Some(p) => Some(segments_view(p.segments@)),
                None => None,
            },
        }
    }
}

proof fn lemma_first_bound_prefix(s: Seq<Option<TypePath>>, k: int, n: int)
    requires
        0 <= k <= n <= s.len(),
        first_bound_view(s.take(k)) is Some,
    ensures
        first_bound_view(s.take(n)) == first_bound_view(s.take(k)),
    decreases n - k,
{
    if k < n {
        lemma_first_bound_prefix(s, k, n - 1);
        assert(s.take(n).drop_last() =~= s.take(n - 1));
    }
}

/// The position of the first trait bound among a trait object's bounds,
/// if one is a trait.
pub fn first_trait_bound(bounds: &Vec<Option<TypePath>>) -> (res: Option<usize>)
    ensures
        match res {
            Some(k) => k < bounds@.len() && bounds@[k as int] is Some && first_bound_view(bounds@)
                == Some(path_view(bounds@[k as int]->Some_0)),
            None => first_bound_view(bounds@) is None,
        },
{
    let n = bounds.len();
    proof {
        assert(bounds@.take(0) =~= Seq::<Option<TypePath>>::empty());
    }
    for i in 0..n
        invariant
            n == bounds@.len(),
            first_bound_view(bounds@.take(i as int)) is None,
    {
        proof {
            assert(bounds@.take(i + 1).drop_last() =~= bounds@.take(i as int));
            assert(bounds@.take(i + 1).last() == bounds@[i as int]);
        }
        if bounds[i].is_some() {
            proof {
                lemma_first_bound_prefix(bounds@, i + 1, n as int);
                assert(bounds@.take(n as int) =~= bounds@);
            }
            return Some(i);
        }
    }
    proof {
        assert(bounds@.take(n as int) =~= bounds@);
    }
    None
}

/// The views of a sequence of types.
pub open spec fn types_view(s: Seq<RustType>) -> Seq<TypeV>
    decreases s,
{
    if s.len() == 0 {
        Seq::empty()
    } else {
        types_view(s.drop_last()).push(type_view(s.last()))
    }
}

/// The views of the segments of a path.
pub open spec fn segments_view(s: Seq<TypeSegment>) -> Seq<SegmentV>
    decreases s,
{
    if s.len() == 0 {
        Seq::empty()
    } else {
        segments_view(s.drop_last()).push(segment_view(s.last()))
    }
}

/// The view of a path segment.
pub open spec fn segment_view(s: TypeSegment) -> SegmentV
    decreases s,
{
    SegmentV { ident: s.ident@, arguments: arguments_view(s.arguments) }
}

/// The view of path arguments.
pub open spec fn arguments_view(a: PathArguments) -> ArgsV
    decreases a,
{
    match a {
        PathArguments::Empty => ArgsV::Empty,
        PathArguments::AngleBracketed(v) => ArgsV::AngleBracketed(generic_args_view(v@)),
        PathArguments::Parenthesized => ArgsV::Parenthesized,
    }
}

/// The views of generic arguments.
pub open spec fn generic_args_view(s: Seq<TypeArgument>) -> Seq<GenericArgV>
    decreases s,
{
    if s.len() == 0 {
        Seq::empty()
    } else {
        generic_args_view(s.drop_last()).push(generic_arg_view(s.last()))
    }
}

/// The view of a generic argument.
pub open spec fn generic_arg_view(g: TypeArgument) -> GenericArgV
    decreases g,
{
    match g {
        TypeArgument::Type(t) => GenericArgV::Type(type_view(t)),
        TypeArgument::Lifetime(l) => GenericArgV::Lifetime(l@),
        TypeArgument::Const => GenericArgV::Const,
        TypeArgument::Other => GenericArgV::Other,
    }
}

/// The view of a path.
pub open spec fn path_view(p: TypePath) -> Seq<SegmentV> {
    segments_view(p.segments@)
}

/// The views of a sequence of types, element by element.
pub proof fn lemma_types_view(s: Seq<RustType>)
    ensures
        types_view(s).len() == s.len(),
        forall|i: int| 0 <= i < s.len() ==> #[trigger] types_view(s)[i] == type_view(s[i]),
    decreases s.len(),
{
    if s.len() > 0 {
        lemma_types_view(s.drop_last());
    }
}

/// The views of the segments of a path, segment by segment.
pub proof fn lemma_segments_view(s: Seq<TypeSegment>)
    ensures
        segments_view(s).len() == s.len(),
        forall|i: int| 0 <= i < s.len() ==> #[trigger] segments_view(s)[i] == segment_view(s[i]),
    decreases s.len(),
{
    if s.len() > 0 {
        lemma_segments_view(s.drop_last());
    }
}

/// The views of generic arguments, argument by argument.
pub proof fn lemma_generic_args_view(s: Seq<TypeArgument>)
    ensures
        generic_args_view(s).len() == s.len(),
        forall|i: int|
            0 <= i < s.len() ==> #[trigger] generic_args_view(s)[i] == generic_arg_view(s[i]),
    decreases s.len(),
{
    if s.len() > 0 {
        lemma_generic_args_view(s.drop_last());
    }
}

/// A copy of a type.
pub fn clone_type(t: &RustType) -> (res: RustType)
    ensures
        type_view(res) == type_view(*t),
    decreases *t,
{
    match t {
        RustType::Path(p) => RustType::Path(clone_path(p)),
        RustType::Reference(b) => RustType::Reference(Box::new(clone_type(b))),
        RustType::Tuple(v) => RustType::Tuple(clone_types(v)),
        RustType::Group(b) => RustType::Group(Box::new(clone_type(b))),
        RustType::Slice(b) => RustType::Slice(Box::new(clone_type(b))),
        RustType::Array(b) => RustType::Array(Box::new(clone_type(b))),
        RustType::TraitObject(bs) => match first_trait_bound(bs) {
            Some(k) => match &bs[k] {
                Some(p) => {
                    proof {
                        assert(decreases_to!(*t => bs@[k as int]));
                    }
                    let c = clone_path(p);
                    let mut v: Vec<Option<TypePath>> = Vec::new();
                    v.push(Some(c));
                    proof {
                        assert(v@.drop_last() =~= Seq::<Option<TypePath>>::empty());
                        assert(first_bound_view(v@.drop_last()) is None);
                        assert(v@.last() == Some(c));
                        assert(first_bound_view(v@) == Some(path_view(c)));
                    }
                    RustType::TraitObject(v)
                },
                None => vstd::pervasive::unreached(),
            },
            None => {
                let v: Vec<Option<TypePath>> = Vec::new();
                proof {
                    assert(v@.len() == 0);
                    assert(first_bound_view(v@) is None);
                }
                RustType::TraitObject(v)
            },
        },
        RustType::Other => RustType::Other,
    }
}

/// A copy of a sequence of types.
pub fn clone_types(v: &Vec<RustType>) -> (res: Vec<RustType>)
    ensures
        types_view(res@) == types_view(v@),
    decreases *v,
{
    let mut res: Vec<RustType> = Vec::new();
    let n = v.len();
    for i in 0..n
        invariant
            n == v@.len(),
            res@.len() == i,
            types_view(res@) == types_view(v@.take(i as int)),
    {
        assert(decreases_to!(*v => v@[i as int]));
        let c = clone_type(&v[i]);
        proof {
            assert(v@.take(i + 1).drop_last() =~= v@.take(i as int));
            assert(res@.push(c).drop_last() =~= res@);
        }
        res.push(c);
    }
    assert(v@.take(n as int) =~= v@);
    res
}

/// A copy of a path.
pub fn clone_path(p: &TypePath) -> (res: TypePath)
    ensures
        path_view(res) == path_view(*p),
    decreases *p,
{
    let mut segments: Vec<TypeSegment> = Vec::new();
    let n = p.segments.len();
    for i in 0..n
        invariant
            n == p.segments@.len(),
            segments@.len() == i,
            segments_view(segments@) == segments_view(p.segments@.take(i as int)),
    {
        assert(decreases_to!(*p => p.segments@[i as int]));
        let c = clone_segment(&p.segments[i]);
        proof {
            assert(p.segments@.take(i + 1).drop_last() =~= p.segments@.take(i as int));
            assert(segments@.push(c).drop_last() =~= segments@);
        }
        segments.push(c);
    }
    assert(p.segments@.take(n as int) =~= p.segments@);
    TypePath { segments }
}

/// A copy of a path segment.
pub fn clone_segment(s: &TypeSegment) -> (res: TypeSegment)
    ensures
        segment_view(res) == segment_view(*s),
    decreases *s,
{
    let arguments = match &s.arguments {
        PathArguments::Empty => PathArguments::Empty,
        PathArguments::AngleBracketed(v) => {
            let mut args: Vec<TypeArgument> = Vec::new();
            let n = v.len();
            for i in 0..n
                invariant
                    n == v@.len(),
                    s.arguments == PathArguments::AngleBracketed(*v),
                    args@.len() == i,
                    generic_args_view(args@) == generic_args_view(v@.take(i as int)),
            {
                proof {
                    assert(decreases_to!(*s => s.arguments));
                    assert(decreases_to!(s.arguments => s.arguments->AngleBracketed_0));
                    assert(decreases_to!(*v => v@));
                    assert(decreases_to!(v@ => v@[i as int]));
                    assert(decreases_to!(*s => v@[i as int]));
                }
                let c = clone_generic_arg(&v[i]);
                proof {
                    assert(v@.take(i + 1).drop_last() =~= v@.take(i as int));
                    assert(args@.push(c).drop_last() =~= args@);
                }
                args.push(c);
            }
            assert(v@.take(n as int) =~= v@);
            PathArguments::AngleBracketed(args)
        },
        PathArguments::Parenthesized => PathArguments::Parenthesized,
    };
    TypeSegment { ident: s.ident.clone(), arguments }
}

/// A copy of a generic argument.
pub fn clone_generic_arg(g: &TypeArgument) -> (res: TypeArgument)
    ensures
        generic_arg_view(res) == generic_arg_view(*g),
    decreases *g,
{
    match g {
        TypeArgument::Type(t) => TypeArgument::Type(clone_type(t)),
        TypeArgument::Lifetime(l) => TypeArgument::Lifetime(l.clone()),
        TypeArgument::Const => TypeArgument::Const,
        TypeArgument::Other => TypeArgument::Other,
    }
}

/// Whether two types are the same.
pub fn type_eq(a: &RustType, b: &RustType) -> (res: bool)
    ensures
        res == (type_view(*a) == type_view(*b)),
    decreases *a,
{
    match (a, b) {
        (RustType::Path(p), RustType::Path(q)) => path_eq(p, q),
        (RustType::Reference(x), RustType::Reference(y)) => type_eq(x, y),
        (RustType::Tuple(x), RustType::Tuple(y)) => types_eq(x, y),
        (RustType::Group(x), RustType::Group(y)) => type_eq(x, y),
        (RustType::Slice(x), RustType::Slice(y)) => type_eq(x, y),
        (RustType::Array(x), RustType::Array(y)) => type_eq(x, y),
        (RustType::TraitObject(x), RustType::TraitObject(y)) => match (
            first_trait_bound(x),
            first_trait_bound(y),
        ) {
            (Some(i), Some(j)) => match (&x[i], &y[j]) {
                (Some(p), Some(q)) => {
                    proof {
                        assert(decreases_to!(*a => x@[i as int]));
                    }
                    path_eq(p, q)
                },
                _ => false,
            },
            (None, None) => true,
            _ => false,
        },
        (RustType::Other, RustType::Other) => true,
        _ => false,
    }
}

/// Whether two sequences of types are the same.
pub fn types_eq(a: &Vec<RustType>, b: &Vec<RustType>) -> (res: bool)
    ensures
        res == (types_view(a@) == types_view(b@)),
    decreases *a,
{
    proof {
        lemma_types_view(a@);
        lemma_types_view(b@);
    }
    if a.len() != b.len() {
        return false;
    }
    let n = a.len();
    for i in 0..n
        invariant
            n == a@.len(),
            n == b@.len(),
            types_view(a@).len() == n,
            types_view(b@).len() == n,
            forall|j: int| 0 <= j < n ==> #[trigger] types_view(a@)[j] == type_view(a@[j]),
            forall|j: int| 0 <= j < n ==> #[trigger] types_view(b@)[j] == type_view(b@[j]),
            forall|j: int| 0 <= j < i ==> type_view(#[trigger] a@[j]) == type_view(b@[j]),
    {
        assert(decreases_to!(*a => a@[i as int]));
        if !type_eq(&a[i], &b[i]) {
            assert(types_view(a@)[i as int] != types_view(b@)[i as int]);
            return false;
        }
    }
    assert(types_view(a@) =~= types_view(b@));
    true
}

/// Whether two paths are the same.
pub fn path_eq(a: &TypePath, b: &TypePath) -> (res: bool)
    ensures
        res == (path_view(*a) == path_view(*b)),
    decreases *a,
{
    proof {
        lemma_segments_view(a.segments@);
        lemma_segments_view(b.segments@);
    }
    if a.segments.len() != b.segments.len() {
        return false;
    }
    let n = a.segments.len();
    for i in 0..n
        invariant
            n == a.segments@.len(),
            n == b.segments@.len(),
            path_view(*a).len() == n,
            path_view(*b).len() == n,
            forall|j: int| 0 <= j < n ==> #[trigger] path_view(*a)[j] == segment_view(a.segments@[j]),
            forall|j: int| 0 <= j < n ==> #[trigger] path_view(*b)[j] == segment_view(b.segments@[j]),
            forall|j: int| 0 <= j < i ==> segment_view(#[trigger] a.segments@[j]) == segment_view(b.segments@[j]),
    {
        assert(decreases_to!(*a => a.segments));
        assert(decreases_to!(a.segments => a.segments@));
        assert(decreases_to!(a.segments@ => a.segments@[i as int]));
        if !segment_eq(&a.segments[i], &b.segments[i]) {
            assert(path_view(*a)[i as int] != path_view(*b)[i as int]);
            return false;
        }
    }
    assert(path_view(*a) =~= path_view(*b));
    true
}

/// Whether two path segments are the same.
pub fn segment_eq(a: &TypeSegment, b: &TypeSegment) -> (res: bool)
    ensures
        res == (segment_view(*a) == segment_view(*b)),
    decreases *a,
{
    if !crate::text::str_eq(a.ident.as_str(), b.ident.as_str()) {
        return false;
    }
    match (&a.arguments, &b.arguments) {
        (PathArguments::Empty, PathArguments::Empty) => true,
        (PathArguments::Parenthesized, PathArguments::Parenthesized) => true,
        (PathArguments::AngleBracketed(x), PathArguments::AngleBracketed(y)) => {
            assert(decreases_to!(*a => a.arguments));
            generic_args_eq(x, y)
        },
        _ => false,
    }
}

/// Whether two sequences of generic arguments are the same.
pub fn generic_args_eq(a: &Vec<TypeArgument>, b: &Vec<TypeArgument>) -> (res: bool)
    ensures
        res == (generic_args_view(a@) == generic_args_view(b@)),
    decreases *a,
{
    proof {
        lemma_generic_args_view(a@);
        lemma_generic_args_view(b@);
    }
    if a.len() != b.len() {
        return false;
    }
    let n = a.len();
    for i in 0..n
        invariant
            n == a@.len(),
            n == b@.len(),
            generic_args_view(a@).len() == n,
            generic_args_view(b@).len() == n,
            forall|j: int| 0 <= j < n ==> #[trigger] generic_args_view(a@)[j] == generic_arg_view(a@[j]),
            forall|j: int| 0 <= j < n ==> #[trigger] generic_args_view(b@)[j] == generic_arg_view(b@[j]),
            forall|j: int| 0 <= j < i ==> generic_arg_view(#[trigger] a@[j]) == generic_arg_view(b@[j]),
    {
        assert(decreases_to!(*a => a@[i as int]));
        let same = match (&a[i], &b[i]) {
            (TypeArgument::Type(x), TypeArgument::Type(y)) => {
                assert(decreases_to!(a@[i as int] => a@[i as int]->Type_0));
                type_eq(x, y)
            },
            (TypeArgument::Lifetime(x), TypeArgument::Lifetime(y)) => crate::text::str_eq(
                x.as_str(),
                y.as_str(),
            ),
            (TypeArgument::Const, TypeArgument::Const) => true,
            (TypeArgument::Other, TypeArgument::Other) => true,
            _ => false,
        };
        if !same {
            assert(generic_args_view(a@)[i as int] != generic_args_view(b@)[i as int]);
            return false;
        }
    }
    assert(generic_args_view(a@) =~= generic_args_view(b@));
    true
}

} // verus!
