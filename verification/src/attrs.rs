//! Attribute holders of components and schemas, capability names, component
//! descriptions and modules of annotated items.
use vstd::prelude::*;
use vstd::string::StringExecFns;

use crate::doc_comment::{join_lines, lines_view, CommentAttributes};
use crate::features::{
    Example, Format, Inline, Name, Nullable, ReadOnly, ValueType, WriteOnly, XmlAttr,
};
use crate::text::str_eq;
use crate::type_tree::{tree_view, TypeTree};
use crate::tokens::{attr_is, is_ident, token_is_ident, Attribute, Token, next_lit_str, parse_next_lit_str};

verus! {

impl Name for Example {
    fn get_name() -> (res: &'static str)
        ensures
            res@ == "example"@,
    {
        "example"
    }
}

impl Name for crate::features::Default {
    fn get_name() -> (res: &'static str)
        ensures
            res@ == "default"@,
    {
        "default"
    }
}

impl Name for Inline {
    fn get_name() -> (res: &'static str)
        ensures
            res@ == "inline"@,
    {
        "inline"
    }
}

impl Name for XmlAttr {
    fn get_name() -> (res: &'static str)
        ensures
            res@ == "xml"@,
    {
        "xml"
    }
}

impl Name for Format {
    fn get_name() -> (res: &'static str)
        ensures
            res@ == "format"@,
    {
        "format"
    }
}

impl Name for ValueType {
    fn get_name() -> (res: &'static str)
        ensures
            res@ == "value_type"@,
    {
        "value_type"
    }
}

impl Name for WriteOnly {
    fn get_name() -> (res: &'static str)
        ensures
            res@ == "write_only"@,
    {
        "write_only"
    }
}

impl Name for ReadOnly {
    fn get_name() -> (res: &'static str)
        ensures
            res@ == "read_only"@,
    {
        "read_only"
    }
}

impl Name for crate::features::Title {
    fn get_name() -> (res: &'static str)
        ensures
            res@ == "title"@,
    {
        "title"
    }
}

impl Name for Nullable {
    fn get_name() -> (res: &'static str)
        ensures
            res@ == "nullable"@,
    {
        "nullable"
    }
}

/// Where a component's description comes from: its doc comment, or an
/// explicit `description` feature.
pub enum ComponentDescription<'c> {
    CommentAttributes(&'c CommentAttributes),
    Description(&'c crate::features::Description),
}

/// The description that a component gets: the doc comment lines joined with
/// line feeds, or the explicit description; none where that is empty.
pub open spec fn spec_description(d: ComponentDescription) -> Option<Seq<char>> {
    let text = match d {
        ComponentDescription::CommentAttributes(c) => join_lines(lines_view(c.0@)),
        ComponentDescription::Description(x) => x.0@,
    };
    if text.len() == 0 {
        None
    } else {
        Some(text)
    }
}

impl<'c> ComponentDescription<'c> {
    /// The description text, unless it is empty.
    pub fn description(&self) -> (res: Option<String>)
        ensures
            match res {
                Some(s) => spec_description(*self) == Some(s@),
                None => spec_description(*self) is None,
            },
    {
        let text = match self {
            ComponentDescription::CommentAttributes(c) => {
                if c.is_empty() {
                    String::new()
                } else {
                    c.as_formatted_string()
                }
            },
            ComponentDescription::Description(d) => d.0.clone(),
        };
        if text.as_str().is_empty() {
            None
        } else {
            Some(text)
        }
    }
}

/// The attributes of a component, of some kind `T`.
pub struct ComponentAttr<T> {
    pub inner: T,
}

impl<T> ComponentAttr<T> {
    /// The attributes.
    pub fn as_ref(&self) -> (res: &T)
        ensures
            *res == self.inner,
    {
        &self.inner
    }
}

/// Whether an attribute holder marks the schema as inlined.
pub trait IsInlineAttr {
    /// Whether the attributes inline the schema.
    spec fn inline_view(&self) -> bool;

    /// Whether the attributes inline the schema.
    fn is_inline(&self) -> (res: bool)
        ensures
            res == self.inline_view(),
    ;
}

/// The `#[schema(...)]` attributes of a schema, of some kind `T`.
pub struct SchemaAttr<T> {
    pub inner: T,
}

impl<T> SchemaAttr<T> {
    /// The attributes.
    pub fn as_ref(&self) -> (res: &T)
        ensures
            *res == self.inner,
    {
        &self.inner
    }
}

impl<T: IsInlineAttr> IsInlineAttr for SchemaAttr<T> {
    open spec fn inline_view(&self) -> bool {
        self.inner.inline_view()
    }

    fn is_inline(&self) -> bool {
        self.inner.is_inline()
    }
}

/// An optional title of a schema.
pub struct Title(pub Option<String>);

impl IsInlineAttr for Title {
    open spec fn inline_view(&self) -> bool {
        false
    }

    fn is_inline(&self) -> (res: bool)
        ensures
            !res,
    {
        false
    }
}

/// A value that is borrowed or owned.
pub enum Roo<'t, T> {
    Ref(&'t T),
    Owned(T),
}

impl<'t, T> Roo<'t, T> {
    /// The value.
    pub fn deref(&self) -> (res: &T)
        ensures
            *res == match *self {
                Roo::Ref(t) => *t,
                Roo::Owned(t) => t,
            },
    {
        match self {
            Roo::Ref(t) => t,
            Roo::Owned(t) => t,
        }
    }
}

/// The arguments of a `#[utoipa::module(...)]` attribute: its scope.
pub struct ModuleAttr {
    pub scope: String,
}

/// The scope of a module attribute: the string after `scope =`, or none
/// where the first identifier is something else.
pub open spec fn spec_module_scope(tokens: Seq<Token>) -> Result<Seq<char>, ()> {
    if tokens.len() == 0 || !(tokens[0] is Ident) {
        Err(())
    } else if is_ident(tokens[0], "scope"@) {
        if tokens.len() >= 3 && (tokens[1] matches Token::Punct(c) && c == '=') && tokens[2] is Literal {
            match next_lit_str(tokens, 1) {
                Some(s) => Ok(s),
                None => Err(()),
            }
        } else {
            Err(())
        }
    } else {
        Ok(Seq::empty())
    }
}

impl ModuleAttr {
    /// Reads the scope from the attribute's arguments: an identifier first,
    /// and for `scope` then `=` and a string literal.
    pub fn parse(tokens: &Vec<Token>) -> (res: Result<ModuleAttr, ()>)
        ensures
            match res {
                Ok(m) => spec_module_scope(tokens@) == Ok::<Seq<char>, ()>(m.scope@),
                Err(_) => spec_module_scope(tokens@) is Err,
            },
    {
        if tokens.len() == 0 {
            return Err(());
        }
        match &tokens[0] {
            Token::Ident(_) => {},
            _ => {
                return Err(());
            },
        }
        if token_is_ident(&tokens[0], "scope") {
            if tokens.len() >= 3 {
                let eq = match &tokens[1] {
                    Token::Punct(c) => *c == '=',
                    _ => false,
                };
                let lit = match &tokens[2] {
                    Token::Literal(_) => true,
                    _ => false,
                };
                if eq && lit {
                    return match parse_next_lit_str(tokens, 1) {
                        Some(s) => Ok(ModuleAttr { scope: s }),
                        None => Err(()),
                    };
                }
            }
            Err(())
        } else {
            Ok(ModuleAttr { scope: String::new() })
        }
    }
}

/// The kind of an item in a module, as far as modules read it.
#[derive(PartialEq, Eq, Structural, Clone, Copy, Debug)]
pub enum ItemKind {
    Enum,
    Struct,
    Fn,
    Other,
}

/// An item of a module: its kind, name and attributes.
pub struct ModuleItemSource {
    pub kind: ItemKind,
    pub ident: String,
    pub attrs: Vec<Attribute>,
}

/// An item of a module that is documented: a schema, a response or a path.
pub enum ModuleItem {
    Schema(String),
    Response(String),
    Path(String),
}

/// A module of documented items.
pub struct Module {
    pub items: Vec<ModuleItem>,
}

/// Whether some `derive` attribute names the derive, by any path segment.
pub open spec fn spec_is_utoipa_derive(attrs: Seq<Attribute>, derive: Seq<char>) -> bool {
    exists|i: int, j: int|
        0 <= i < attrs.len() && (exists|k: int|
            0 <= k < attrs[i].path@.len() && (#[trigger] attrs[i].path@[k])@ == "derive"@) && 0
            <= j < attrs[i].args@.len() && is_ident(#[trigger] attrs[i].args@[j], derive)
}

/// Whether some attribute's path segments are all `utoipa` or `path`.
pub open spec fn spec_is_utoipa_path(attrs: Seq<Attribute>) -> bool {
    exists|i: int|
        0 <= i < attrs.len() && forall|k: int|
            0 <= k < (#[trigger] attrs[i]).path@.len() ==> attrs[i].path@[k]@ == "utoipa"@
                || attrs[i].path@[k]@ == "path"@
}

fn path_has(path: &Vec<String>, name: &str) -> (res: bool)
    ensures
        res == exists|k: int| 0 <= k < path@.len() && (#[trigger] path@[k])@ == name@,
{
    let n = path.len();
    for k in 0..n
        invariant
            n == path@.len(),
            forall|j: int| 0 <= j < k ==> (#[trigger] path@[j])@ != name@,
    {
        if str_eq(path[k].as_str(), name) {
            return true;
        }
    }
    false
}

fn args_have_ident(args: &Vec<Token>, name: &str) -> (res: bool)
    ensures
        res == exists|j: int| 0 <= j < args@.len() && is_ident(#[trigger] args@[j], name@),
{
    let n = args.len();
    for j in 0..n
        invariant
            n == args@.len(),
            forall|l: int| 0 <= l < j ==> !is_ident(#[trigger] args@[l], name@),
    {
        if token_is_ident(&args[j], name) {
            return true;
        }
    }
    false
}

/// A documented item as a tag (0 schema, 1 response, 2 path) and a name.
pub open spec fn module_item_view(m: ModuleItem) -> (u8, Seq<char>) {
    match m {
        ModuleItem::Schema(s) => (0u8, s@),
        ModuleItem::Response(s) => (1u8, s@),
        ModuleItem::Path(s) => (2u8, s@),
    }
}

/// What one item of a module contributes to its documented items.
pub open spec fn item_entry(item: ModuleItemSource) -> Seq<(u8, Seq<char>)> {
    match item.kind {
        ItemKind::Enum | ItemKind::Struct => if spec_is_utoipa_derive(item.attrs@, "ToSchema"@) {
            seq![(0u8, item.ident@)]
        } else if spec_is_utoipa_derive(item.attrs@, "ToResponse"@) {
            seq![(1u8, item.ident@)]
        } else {
            Seq::empty()
        },
        ItemKind::Fn => if spec_is_utoipa_path(item.attrs@) {
            seq![(2u8, item.ident@)]
        } else {
            Seq::empty()
        },
        ItemKind::Other => Seq::empty(),
    }
}

/// The documented items of a sequence of module items, in order.
pub open spec fn spec_module_items(items: Seq<ModuleItemSource>) -> Seq<(u8, Seq<char>)>
    decreases items.len(),
{
    if items.len() == 0 {
        Seq::empty()
    } else {
        spec_module_items(items.drop_last()) + item_entry(items.last())
    }
}

impl Module {
    /// Whether the item derives `derive`.
    pub fn is_utoipa_derive(attributes: &Vec<Attribute>, derive: &str) -> (res: bool)
        ensures
            res == spec_is_utoipa_derive(attributes@, derive@),
    {
        let n = attributes.len();
        for i in 0..n
            invariant
                n == attributes@.len(),
                forall|l: int, j: int|
                    0 <= l < i && (exists|k: int|
                        0 <= k < attributes@[l].path@.len() && (
                        #[trigger] attributes@[l].path@[k])@ == "derive"@) && 0 <= j
                        < attributes@[l].args@.len() ==> !is_ident(
                        #[trigger] attributes@[l].args@[j],
                        derive@,
                    ),
        {
            let a = &attributes[i];
            if path_has(&a.path, "derive") && args_have_ident(&a.args, derive) {
                return true;
            }
        }
        false
    }

    /// Whether the item carries a `#[utoipa::path]` attribute.
    pub fn is_utoipa_path(attributes: &Vec<Attribute>) -> (res: bool)
        ensures
            res == spec_is_utoipa_path(attributes@),
    {
        let n = attributes.len();
        for i in 0..n
            invariant
                n == attributes@.len(),
                forall|l: int|
                    0 <= l < i ==> !(forall|k: int|
                        0 <= k < (#[trigger] attributes@[l]).path@.len() ==> attributes@[l].path@[k]@
                            == "utoipa"@ || attributes@[l].path@[k]@ == "path"@),
        {
            let p = &attributes[i].path;
            let m = p.len();
            let mut all = true;
            for k in 0..m
                invariant
                    m == p@.len(),
                    *p == attributes@[i as int].path,
                    all == forall|j: int| 0 <= j < k ==> p@[j]@ == "utoipa"@ || p@[j]@ == "path"@,
            {
                if !(str_eq(p[k].as_str(), "utoipa") || str_eq(p[k].as_str(), "path")) {
                    all = false;
                }
            }
            if all {
                return true;
            }
        }
        false
    }

    /// The documented items of a module: enums and structs that derive
    /// `ToSchema` (or else `ToResponse`), and functions with `#[utoipa::path]`,
    /// in the order of the module.
    pub fn new(attributes: ModuleAttr, items: &Vec<ModuleItemSource>) -> (res: Module)
        ensures
            res.items@.map_values(|m: ModuleItem| module_item_view(m)) == spec_module_items(
                items@,
            ),
    {
        let mut out: Vec<ModuleItem> = Vec::new();
        let n = items.len();
        for i in 0..n
            invariant
                n == items@.len(),
                out@.map_values(|m: ModuleItem| module_item_view(m)) == spec_module_items(
                    items@.take(i as int),
                ),
        {
            let item = &items[i];
            proof {
                assert(items@.take(i + 1).drop_last() == items@.take(i as int));
            }
            let ghost before = out@;
            match item.kind {
                ItemKind::Enum | ItemKind::Struct => {
                    if Module::is_utoipa_derive(&item.attrs, "ToSchema") {
                        out.push(ModuleItem::Schema(item.ident.clone()));
                    } else if Module::is_utoipa_derive(&item.attrs, "ToResponse") {
                        out.push(ModuleItem::Response(item.ident.clone()));
                    }
                },
                ItemKind::Fn => {
                    if Module::is_utoipa_path(&item.attrs) {
                        out.push(ModuleItem::Path(item.ident.clone()));
                    }
                },
                ItemKind::Other => {},
            }
            proof {
                assert(out@.map_values(|m: ModuleItem| module_item_view(m)) =~= before.map_values(
                    |m: ModuleItem| module_item_view(m),
                ) + item_entry(*item));
            }
        }
        proof {
            assert(items@.take(n as int) == items@);
        }
        Module { items: out }
    }
}

/// Whether some attribute is `#[deprecated]` (its path is that one name).
pub open spec fn spec_has_deprecated(attrs: Seq<Attribute>) -> bool {
    exists|i: int| 0 <= i < attrs.len() && attr_is(#[trigger] attrs[i], "deprecated"@)
}

/// Whether some attribute is `#[deprecated]`.
pub fn has_deprecated(attrs: &Vec<Attribute>) -> (res: bool)
    ensures
        res == spec_has_deprecated(attrs@),
{
    match crate::tokens::find_attribute(attrs, "deprecated") {
        Some(_) => true,
        None => false,
    }
}

/// The deprecation of an item: set where it has a `#[deprecated]`
/// attribute.
pub fn get_deprecated(attrs: &Vec<Attribute>) -> (res: Option<crate::features::Deprecated>)
    ensures
        match res {
            Some(d) => spec_has_deprecated(attrs@) && d.0,
            None => !spec_has_deprecated(attrs@),
        },
{
    if has_deprecated(attrs) {
        Some(crate::features::Deprecated(true))
    } else {
        None
    }
}

/// A generic parameter of an item, by its name.
pub enum GenericParam {
    Type(String),
    Lifetime(String),
    Const(String),
}

/// The view of a [`GenericParam`].
pub enum ParamV {
    Type(Seq<char>),
    Lifetime(Seq<char>),
    Const(Seq<char>),
}

/// The view of a generic parameter.
pub open spec fn param_view(p: GenericParam) -> ParamV {
    match p {
        GenericParam::Type(n) => ParamV::Type(n@),
        GenericParam::Lifetime(n) => ParamV::Lifetime(n@),
        GenericParam::Const(n) => ParamV::Const(n@),
    }
}

/// The views of generic parameters.
pub open spec fn params_view(s: Seq<GenericParam>) -> Seq<ParamV> {
    s.map_values(|p: GenericParam| param_view(p))
}

/// The number of type parameters among the parameters.
pub open spec fn type_param_count(params: Seq<GenericParam>) -> nat
    decreases params.len(),
{
    if params.len() == 0 {
        0
    } else {
        type_param_count(params.drop_last()) + if params.last() is Type {
            1nat
        } else {
            0nat
        }
    }
}

/// Whether the parameter is the type parameter of the name.
pub open spec fn is_type_param(p: GenericParam, name: Seq<char>) -> bool {
    p matches GenericParam::Type(n) && n@ == name
}

/// The position among the type parameters of the first type parameter of
/// the name, if there is one.
pub open spec fn type_param_index(params: Seq<GenericParam>, name: Seq<char>) -> Option<nat> {
    if exists|i: int| 0 <= i < params.len() && is_type_param(#[trigger] params[i], name) {
        let i = choose|i: int|
            0 <= i < params.len() && is_type_param(params[i], name) && forall|j: int|
                0 <= j < i ==> !is_type_param(#[trigger] params[j], name);
        Some(type_param_count(params.take(i)))
    } else {
        None
    }
}

/// The position, among the type parameters, of the type parameter that the
/// tree's last path segment names.
pub fn get_generic_type_param_index(params: &Vec<GenericParam>, type_tree: &TypeTree) -> (res: Option<usize>)
    requires
        tree_view(*type_tree).path is Some,
        tree_view(*type_tree).path->Some_0.len() > 0,
    ensures
        res matches Some(k) ==> type_param_index(params@, tree_view(*type_tree).path->Some_0.last().ident)
            == Some(k as nat),
        res is None ==> type_param_index(params@, tree_view(*type_tree).path->Some_0.last().ident) is None,
{
    let path = match &type_tree.path {
        Some(p) => p,
        None => {
            return None;
        },
    };
    proof {
        crate::rust_type::lemma_segments_view(path.segments@);
    }
    let m = path.segments.len();
    let name = path.segments[m - 1].ident.as_str();
    let ghost nv = name@;
    proof {
        assert(tree_view(*type_tree).path == Some(crate::rust_type::path_view(*path)));
        assert(crate::rust_type::path_view(*path)[m - 1] == crate::rust_type::segment_view(
            path.segments@[m - 1],
        ));
        assert(tree_view(*type_tree).path->Some_0.last().ident == nv);
    }
    let n = params.len();
    let mut count: usize = 0;
    proof {
        assert(params@.take(0) =~= Seq::<GenericParam>::empty());
    }
    for i in 0..n
        invariant
            n == params@.len(),
            nv == name@,
            tree_view(*type_tree).path is Some,
            tree_view(*type_tree).path->Some_0.len() > 0,
            tree_view(*type_tree).path->Some_0.last().ident == nv,
            count == type_param_count(params@.take(i as int)),
            count <= i,
            forall|j: int| 0 <= j < i ==> !is_type_param(#[trigger] params@[j], nv),
    {
        proof {
            assert(params@.take(i + 1).drop_last() =~= params@.take(i as int));
        }
        match &params[i] {
            GenericParam::Type(t) => {
                if str_eq(t.as_str(), name) {
                    proof {
                        assert(is_type_param(params@[i as int], nv));
                        let k = choose|k: int|
                            0 <= k < params@.len() && is_type_param(params@[k], nv) && forall|j: int|
                                0 <= j < k ==> !is_type_param(#[trigger] params@[j], nv);
                        if k < i {
                            assert(!is_type_param(params@[k], nv));
                        } else if k > i {
                            assert(!is_type_param(params@[i as int], nv));
                        }
                        assert(k == i);
                        assert(type_param_index(params@, nv) == Some(count as nat));
                    }
                    return Some(count);
                }
                count = count + 1;
            },
            _ => {},
        }
    }
    None
}

} // verus!
