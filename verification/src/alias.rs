//! The type aliases of the configuration applied to a type tree: the alias
//! is read as a Rust type, and its type tree takes the place of the tree's.
use vstd::prelude::*;

use crate::config::Config;
use crate::diagnostics::Diagnostics;
use crate::rust_type::{
    generic_arg_view, generic_args_view, lemma_generic_args_view, lemma_segments_view,
    lemma_types_view, path_view, segment_view, type_view, types_view, ArgsV, GenericArgV,
    PathArguments, RustType, SegmentV, TypeArgument, TypePath, TypeSegment, TypeV,
};
use crate::type_tree::{
    convert_generic_args, convert_segments, convert_type, convert_types, from_type,
    is_error, spec_alias_type, spec_from_type, tree_view, GenericType, Outcome,
    TypeTree, TypeTreeV,
};

verus! {

#[verifier::external_type_specification]
#[verifier::external_body]
pub struct ExSynType(syn::Type);

#[verifier::external_type_specification]
#[verifier::external_body]
pub struct ExSynPath(syn::Path);

#[verifier::external_type_specification]
#[verifier::external_body]
pub struct ExSynPathSegment(syn::PathSegment);

#[verifier::external_type_specification]
#[verifier::external_body]
pub struct ExSynGenericArgument(syn::GenericArgument);

#[verifier::external_type_specification]
#[verifier::external_body]
pub struct ExSynTypeParamBound(syn::TypeParamBound);

/// What `syn::parse_str::<syn::Type>` makes of a text: the type, read as a
/// plain value, or the text of its parse error.
pub uninterp spec fn syn_type_of(text: Seq<char>) -> Result<TypeV, Seq<char>>;

/// Parses a Rust type with `syn::parse_str::<syn::Type>` (`syn::parse_str`
/// with the `Parse` impl of `syn::Type`). The contract only names the
/// outcome: the parsed type as a plain value, or the `Display` text of the
/// `syn::Error`, as a function of the text alone.
#[verifier::external_body]
fn parse_rust_type(text: &str) -> (res: Result<RustType, String>)
    ensures
        match res {
            Ok(t) => syn_type_of(text@) == Ok::<TypeV, Seq<char>>(type_view(t)),
            Err(e) => syn_type_of(text@) == Err::<TypeV, Seq<char>>(e@),
        },
{
    match syn::parse_str::<syn::Type>(text) {
        Ok(ty) => Ok(rust_type_from_syn(&ty)),
        Err(error) => Err(error.to_string()),
    }
}

/// Reads a `syn::Type` as the library's plain value, variant by variant;
/// a trait object by the path of its first trait bound.
#[verifier::external_body]
fn rust_type_from_syn(ty: &syn::Type) -> RustType {
    match ty {
        syn::Type::Path(p) => RustType::Path(path_from_syn(&p.path)),
        syn::Type::Reference(r) => RustType::Reference(boxed_from_syn(&r.elem)),
        syn::Type::Tuple(t) => RustType::Tuple(t.elems.iter().map(rust_type_from_syn).collect()),
        syn::Type::Group(g) => RustType::Group(boxed_from_syn(&g.elem)),
        syn::Type::Slice(s) => RustType::Slice(boxed_from_syn(&s.elem)),
        syn::Type::Array(a) => RustType::Array(boxed_from_syn(&a.elem)),
        syn::Type::TraitObject(o) => RustType::TraitObject(o.bounds.iter().map(bound_path).collect()),
        _ => RustType::Other,
    }
}

/// Reads a `syn::Type` into a box.
#[verifier::external_body]
fn boxed_from_syn(ty: &syn::Type) -> Box<RustType> {
    Box::new(rust_type_from_syn(ty))
}

/// Reads a `syn::Path` as the library's plain value, segment by segment.
#[verifier::external_body]
fn path_from_syn(path: &syn::Path) -> TypePath {
    TypePath { segments: path.segments.iter().map(segment_from_syn).collect() }
}

/// Reads a `syn::PathSegment`: its identifier and its arguments.
#[verifier::external_body]
fn segment_from_syn(segment: &syn::PathSegment) -> TypeSegment {
    let arguments = match &segment.arguments {
        syn::PathArguments::None => PathArguments::Empty,
        syn::PathArguments::AngleBracketed(args) => PathArguments::AngleBracketed(
            args.args.iter().map(argument_from_syn).collect(),
        ),
        syn::PathArguments::Parenthesized(_) => PathArguments::Parenthesized,
    };
    TypeSegment { ident: segment.ident.to_string(), arguments }
}

/// Reads a `syn::GenericArgument`, variant by variant.
#[verifier::external_body]
fn argument_from_syn(arg: &syn::GenericArgument) -> TypeArgument {
    match arg {
        syn::GenericArgument::Type(ty) => TypeArgument::Type(rust_type_from_syn(ty)),
        syn::GenericArgument::Lifetime(l) => TypeArgument::Lifetime(l.ident.to_string()),
        syn::GenericArgument::Const(_) => TypeArgument::Const,
        _ => TypeArgument::Other,
    }
}

/// Reads a `syn::TypeParamBound`: the path of a trait bound, nothing for
/// another bound.
#[verifier::external_body]
fn bound_path(bound: &syn::TypeParamBound) -> Option<TypePath> {
    match bound {
        syn::TypeParamBound::Trait(t) => Some(path_from_syn(&t.path)),
        _ => None,
    }
}

/// Whether a type reads as a type tree without a missing node: each path
/// has a segment, and each trait object has a trait bound.
pub open spec fn type_reads(t: TypeV) -> bool
    decreases t, 0nat,
{
    match t {
        TypeV::Path(p) => path_reads(p),
        TypeV::Reference(b) => type_reads(*b),
        TypeV::Tuple(es) => types_read(es),
        TypeV::Group(b) => type_reads(*b),
        TypeV::Slice(b) => type_reads(*b),
        TypeV::Array(b) => type_reads(*b),
        TypeV::TraitObject(o) => match o {
            Some(p) => path_reads(p),
            None => false,
        },
        TypeV::Other => true,
    }
}

/// `type_reads` of each type.
pub open spec fn types_read(es: Seq<TypeV>) -> bool
    decreases es, 0nat,
{
    if es.len() == 0 {
        true
    } else {
        types_read(es.drop_last()) && type_reads(es.last())
    }
}

/// A path reads where it has a segment and the type arguments of its last
/// segment read.
pub open spec fn path_reads(p: Seq<SegmentV>) -> bool
    decreases p, 0nat,
{
    p.len() > 0 && match p.last().arguments {
        ArgsV::AngleBracketed(args) => args_read(args),
        _ => true,
    }
}

/// `type_reads` of each type argument.
pub open spec fn args_read(args: Seq<GenericArgV>) -> bool
    decreases args, 0nat,
{
    if args.len() == 0 {
        true
    } else {
        args_read(args.drop_last()) && match args.last() {
            GenericArgV::Type(t) => type_reads(t),
            _ => true,
        }
    }
}

proof fn lemma_type_reads(t: TypeV)
    requires
        type_reads(t),
    ensures
        !(convert_type(t) is Abort),
        convert_type(t) matches Outcome::Done(cs) ==> cs.len() == 1,
    decreases t, 0nat,
{
    match t {
        TypeV::Path(p) => lemma_path_reads(p),
        TypeV::Reference(b) => lemma_type_reads(*b),
        TypeV::Tuple(es) => lemma_types_read(es),
        TypeV::Group(b) => lemma_type_reads(*b),
        TypeV::Slice(b) => lemma_type_reads(*b),
        TypeV::Array(b) => lemma_type_reads(*b),
        TypeV::TraitObject(o) => match o {
            Some(p) => lemma_path_reads(p),
            None => {},
        },
        TypeV::Other => {},
    }
}

proof fn lemma_types_read(es: Seq<TypeV>)
    requires
        types_read(es),
    ensures
        !(convert_types(es) is Abort),
    decreases es, 0nat,
{
    if es.len() > 0 {
        lemma_types_read(es.drop_last());
        lemma_type_reads(es.last());
    }
}

proof fn lemma_path_reads(p: Seq<SegmentV>)
    requires
        path_reads(p),
    ensures
        !(convert_segments(p) is Abort),
    decreases p, 0nat,
{
    match p.last().arguments {
        ArgsV::AngleBracketed(args) => lemma_args_read(args),
        _ => {},
    }
}

proof fn lemma_args_read(args: Seq<GenericArgV>)
    requires
        args_read(args),
    ensures
        !(convert_generic_args(args) is Abort),
    decreases args, 0nat,
{
    if args.len() > 0 {
        lemma_args_read(args.drop_last());
        match args.last() {
            GenericArgV::Type(t) => {
                lemma_type_reads(t);
                assert(!(spec_from_type(t) is Abort));
            },
            _ => {},
        }
    }
}

/// A type that reads has a type tree or an error, never a missing node.
pub proof fn lemma_reads_has_tree(t: TypeV)
    requires
        type_reads(t),
    ensures
        !(spec_from_type(t) is Abort),
{
    lemma_type_reads(t);
}

/// Whether a type reads.
pub fn rust_type_reads(ty: &RustType) -> (res: bool)
    ensures
        res == type_reads(type_view(*ty)),
    decreases *ty,
{
    match ty {
        RustType::Path(p) => path_type_reads(p),
        RustType::Reference(b) => rust_type_reads(b),
        RustType::Tuple(v) => types_read_exec(v),
        RustType::Group(b) => rust_type_reads(b),
        RustType::Slice(b) => rust_type_reads(b),
        RustType::Array(b) => rust_type_reads(b),
        RustType::TraitObject(bs) => match crate::rust_type::first_trait_bound(bs) {
            Some(k) => match &bs[k] {
                Some(p) => {
                    proof {
                        assert(decreases_to!(*ty => bs@[k as int]));
                    }
                    path_type_reads(p)
                },
                None => false,
            },
            None => false,
        },
        RustType::Other => true,
    }
}

fn types_read_exec(v: &Vec<RustType>) -> (res: bool)
    ensures
        res == types_read(types_view(v@)),
    decreases *v,
{
    proof {
        lemma_types_view(v@);
    }
    let n = v.len();
    for i in 0..n
        invariant
            n == v@.len(),
            types_view(v@).len() == n,
            forall|j: int| 0 <= j < n ==> #[trigger] types_view(v@)[j] == type_view(v@[j]),
            types_read(types_view(v@).take(i as int)),
    {
        assert(decreases_to!(*v => v@[i as int]));
        proof {
            let tv = types_view(v@);
            assert(tv.take(i + 1).drop_last() =~= tv.take(i as int));
            assert(tv.take(i + 1).last() == tv[i as int]);
        }
        if !rust_type_reads(&v[i]) {
            proof {
                lemma_types_read_prefix(types_view(v@), i + 1, n as int);
                assert(types_view(v@).take(n as int) =~= types_view(v@));
            }
            return false;
        }
    }
    proof {
        assert(types_view(v@).take(n as int) =~= types_view(v@));
    }
    true
}

/// Whether a path reads.
fn path_type_reads(p: &TypePath) -> (res: bool)
    ensures
        res == path_reads(path_view(*p)),
    decreases *p,
{
    proof {
        lemma_segments_view(p.segments@);
    }
    let n = p.segments.len();
    if n == 0 {
        return false;
    }
    proof {
        assert(path_view(*p).last() == segment_view(p.segments@[n - 1]));
    }
    let segment = &p.segments[n - 1];
    match &segment.arguments {
        PathArguments::AngleBracketed(args) => {
            proof {
                assert(decreases_to!(*p => p.segments@[n - 1]));
                assert(decreases_to!(*segment => segment.arguments));
                assert(decreases_to!(segment.arguments => segment.arguments->AngleBracketed_0));
            }
            args_read_exec(args)
        },
        _ => true,
    }
}

fn args_read_exec(args: &Vec<TypeArgument>) -> (res: bool)
    ensures
        res == args_read(generic_args_view(args@)),
    decreases *args,
{
    proof {
        lemma_generic_args_view(args@);
    }
    let m = args.len();
    for i in 0..m
        invariant
            m == args@.len(),
            generic_args_view(args@).len() == m,
            forall|j: int| 0 <= j < m ==> #[trigger] generic_args_view(args@)[j]
                == generic_arg_view(args@[j]),
            args_read(generic_args_view(args@).take(i as int)),
    {
        proof {
            let gv = generic_args_view(args@);
            assert(gv.take(i + 1).drop_last() =~= gv.take(i as int));
            assert(gv.take(i + 1).last() == gv[i as int]);
        }
        match &args[i] {
            TypeArgument::Type(t) => {
                proof {
                    assert(decreases_to!(*args => args@[i as int]));
                }
                if !rust_type_reads(t) {
                    proof {
                        lemma_args_read_prefix(generic_args_view(args@), i + 1, m as int);
                        assert(generic_args_view(args@).take(m as int) =~= generic_args_view(args@));
                    }
                    return false;
                }
            },
            _ => {},
        }
    }
    proof {
        assert(generic_args_view(args@).take(m as int) =~= generic_args_view(args@));
    }
    true
}

proof fn lemma_types_read_prefix(es: Seq<TypeV>, k: int, n: int)
    requires
        0 <= k <= n <= es.len(),
        !types_read(es.take(k)),
    ensures
        !types_read(es.take(n)),
    decreases n - k,
{
    if k < n {
        lemma_types_read_prefix(es, k, n - 1);
        assert(es.take(n).drop_last() =~= es.take(n - 1));
    }
}

proof fn lemma_args_read_prefix(args: Seq<GenericArgV>, k: int, n: int)
    requires
        0 <= k <= n <= args.len(),
        !args_read(args.take(k)),
    ensures
        !args_read(args.take(n)),
    decreases n - k,
{
    if k < n {
        lemma_args_read_prefix(args, k, n - 1);
        assert(args.take(n).drop_last() =~= args.take(n - 1));
    }
}

/// What resolving the alias of a tree gives: no alias where the
/// configuration gives none for the last segment of its path; the error of
/// parsing the alias; the alias's type tree, or the error of reading it.
/// `None` where the parsed alias has a path without a segment or a trait
/// object without a trait bound, which no type tree can be read from.
pub open spec fn alias_resolved(
    t: TypeTreeV,
    aliases: Map<Seq<char>, Seq<char>>,
    res: Option<Result<Option<TypeTree>, Diagnostics>>,
) -> bool {
    match spec_alias_type(t, aliases) {
        None => res matches Some(Ok(None)),
        Some(a) => match syn_type_of(a) {
            Err(e) => res matches Some(Err(d)) && is_error(d, e),
            Ok(ty) => if type_reads(ty) {
                match res {
                    Some(Ok(Some(tree))) => spec_from_type(ty) == Outcome::Done(tree_view(tree)),
                    Some(Err(d)) => spec_from_type(ty) matches Outcome::Fail(m) && is_error(d, m),
                    _ => false,
                }
            } else {
                res is None
            },
        },
    }
}

/// The type tree of the alias that the configuration gives for the tree's
/// type (by the last segment of its path): the alias is parsed as a Rust
/// type and read as a type tree.
pub fn resolve_alias(tree: &TypeTree, config: &Config) -> (res: Option<
    Result<Option<TypeTree>, Diagnostics>,
>)
    ensures
        alias_resolved(tree_view(*tree), config.aliases_view(), res),
{
    let alias = match tree.get_alias_type(config) {
        Some(a) => a,
        None => {
            return Some(Ok(None));
        },
    };
    match parse_rust_type(alias.as_str()) {
        Err(e) => Some(Err(Diagnostics::new(e))),
        Ok(ty) => {
            if !rust_type_reads(&ty) {
                return None;
            }
            proof {
                lemma_reads_has_tree(type_view(ty));
            }
            match from_type(&ty) {
                Ok(t) => Some(Ok(Some(t))),
                Err(d) => Some(Err(d)),
            }
        },
    }
}

/// Whether the schema of a field is an `Option`: that of its alias's type
/// tree where the configuration gives one, else that of its own.
pub fn schema_is_option(tree: &TypeTree, alias: &Option<TypeTree>) -> (res: bool)
    ensures
        res == match alias {
            Some(a) => a.generic_type == Some(GenericType::Option),
            None => tree.generic_type == Some(GenericType::Option),
        },
{
    match alias {
        Some(a) => a.is_option(),
        None => tree.is_option(),
    }
}

} // verus!
