//! `#[serde(...)]` attributes of fields and containers, and the renaming
//! that they drive.
use vstd::prelude::*;

use crate::rename::{
    rule_by_name, rename_rule_error, spec_rename, spec_rename_variant, slices_first_char,
    RenameRule,
};
use crate::features::{spec_pop_by, pop_by, Feature, FeatureKind, RenameAll};
use crate::tokens::{
    attr_is, find_attribute, is_ident, next_lit_str, parse_next_lit_str, token_is_ident,
    Attribute, Token,
};

verus! {

/// Serde attributes read from a field or an enum variant.
pub struct SerdeValue {
    pub skip: bool,
    pub rename: Option<String>,
    pub default: bool,
    pub flatten: bool,
    pub skip_serializing_if: bool,
    pub double_option: bool,
}

/// The plain-value view of a [`SerdeValue`].
pub struct SerdeValueView {
    pub skip: bool,
    pub rename: Option<Seq<char>>,
    pub default: bool,
    pub flatten: bool,
    pub skip_serializing_if: bool,
    pub double_option: bool,
}

impl View for SerdeValue {
    type V = SerdeValueView;

    open spec fn view(&self) -> SerdeValueView {
        SerdeValueView {
            skip: self.skip,
            rename: match self.rename {
                Some(s) => Some(s@),
                None => None,
            },
            default: self.default,
            flatten: self.flatten,
            skip_serializing_if: self.skip_serializing_if,
            double_option: self.double_option,
        }
    }
}

/// Serde attributes read from a container (`struct` or `enum`).
pub struct SerdeContainer {
    pub rename_all: Option<RenameRule>,
    pub tag: String,
    pub content: String,
    pub untagged: bool,
    pub default: bool,
}

/// The plain-value view of a [`SerdeContainer`].
pub struct SerdeContainerView {
    pub rename_all: Option<RenameRule>,
    pub tag: Seq<char>,
    pub content: Seq<char>,
    pub untagged: bool,
    pub default: bool,
}

impl View for SerdeContainer {
    type V = SerdeContainerView;

    open spec fn view(&self) -> SerdeContainerView {
        SerdeContainerView {
            rename_all: self.rename_all,
            tag: self.tag@,
            content: self.content@,
            untagged: self.untagged,
            default: self.default,
        }
    }
}

/// The attributes of a field before any token is read.
pub open spec fn empty_value() -> SerdeValueView {
    SerdeValueView {
        skip: false,
        rename: None,
        default: false,
        flatten: false,
        skip_serializing_if: false,
        double_option: false,
    }
}

/// The attributes of a container before any token is read.
pub open spec fn empty_container() -> SerdeContainerView {
    SerdeContainerView {
        rename_all: None,
        tag: Seq::empty(),
        content: Seq::empty(),
        untagged: false,
        default: false,
    }
}

/// What reading the token at `i` does to the field attributes.
pub open spec fn value_step(v: SerdeValueView, tokens: Seq<Token>, i: int) -> SerdeValueView {
    let t = tokens[i];
    if is_ident(t, "skip"@) {
        SerdeValueView { skip: true, ..v }
    } else if is_ident(t, "flatten"@) {
        SerdeValueView { flatten: true, ..v }
    } else if is_ident(t, "rename"@) {
        match next_lit_str(tokens, i + 1) {
            Some(lit) => SerdeValueView { rename: Some(lit), ..v },
            None => v,
        }
    } else if is_ident(t, "default"@) {
        SerdeValueView { default: true, ..v }
    } else {
        v
    }
}

/// The field attributes after the first `n` tokens are read.
pub open spec fn value_upto(tokens: Seq<Token>, n: int) -> SerdeValueView
    decreases n,
{
    if n <= 0 {
        empty_value()
    } else {
        value_step(value_upto(tokens, n - 1), tokens, n - 1)
    }
}

/// The field attributes that a whole argument list gives.
pub open spec fn spec_parse_value(tokens: Seq<Token>) -> SerdeValueView {
    value_upto(tokens, tokens.len() as int)
}

/// What reading the token at `i` does to the container attributes; an
/// unknown `rename_all` rule is an error.
pub open spec fn container_step(c: SerdeContainerView, tokens: Seq<Token>, i: int) -> Result<
    SerdeContainerView,
    Seq<char>,
> {
    let t = tokens[i];
    if is_ident(t, "rename_all"@) {
        match next_lit_str(tokens, i + 1) {
            Some(lit) => match rule_by_name(lit) {
                Some(rule) => Ok(SerdeContainerView { rename_all: Some(rule), ..c }),
                None => Err(rename_rule_error()),
            },
            None => Ok(c),
        }
    } else if is_ident(t, "tag"@) {
        match next_lit_str(tokens, i + 1) {
            Some(lit) => Ok(SerdeContainerView { tag: lit, ..c }),
            None => Ok(c),
        }
    } else if is_ident(t, "content"@) {
        match next_lit_str(tokens, i + 1) {
            Some(lit) => Ok(SerdeContainerView { content: lit, ..c }),
            None => Ok(c),
        }
    } else if is_ident(t, "untagged"@) {
        Ok(SerdeContainerView { untagged: true, ..c })
    } else if is_ident(t, "default"@) {
        Ok(SerdeContainerView { default: true, ..c })
    } else {
        Ok(c)
    }
}

/// The container attributes after the first `n` tokens are read, or the
/// first error.
pub open spec fn container_upto(tokens: Seq<Token>, n: int) -> Result<SerdeContainerView, Seq<char>>
    decreases n,
{
    if n <= 0 {
        Ok(empty_container())
    } else {
        match container_upto(tokens, n - 1) {
            Ok(c) => container_step(c, tokens, n - 1),
            Err(e) => Err(e),
        }
    }
}

/// The container attributes that a whole argument list gives, or its error.
pub open spec fn spec_parse_container(tokens: Seq<Token>) -> Result<SerdeContainerView, Seq<char>> {
    container_upto(tokens, tokens.len() as int)
}

impl SerdeValue {
    /// Reads the arguments of a field's `#[serde(...)]` attribute.
    pub fn parse(tokens: &Vec<Token>) -> (res: SerdeValue)
        ensures
            res@ == spec_parse_value(tokens@),
    {
        let mut value = SerdeValue {
            skip: false,
            rename: None,
            default: false,
            flatten: false,
            skip_serializing_if: false,
            double_option: false,
        };
        let n = tokens.len();
        for i in 0..n
            invariant
                n == tokens@.len(),
                value@ == value_upto(tokens@, i as int),
        {
            let t = &tokens[i];
            if token_is_ident(t, "skip") {
                value.skip = true;
            } else if token_is_ident(t, "flatten") {
                value.flatten = true;
            } else if token_is_ident(t, "rename") {
                if let Some(literal) = parse_next_lit_str(tokens, i + 1) {
                    value.rename = Some(literal);
                }
            } else if token_is_ident(t, "default") {
                value.default = true;
            }
        }
        value
    }
}

impl SerdeContainer {
    /// Reads the arguments of a container's `#[serde(...)]` attribute;
    /// `rename_all`, `tag`, `content`, `untagged` and `default` are
    /// recognized.
    pub fn parse(tokens: &Vec<Token>) -> (res: Result<SerdeContainer, String>)
        ensures
            match res {
                Ok(c) => spec_parse_container(tokens@) == Ok::<SerdeContainerView, Seq<char>>(
                    c@,
                ),
                Err(e) => spec_parse_container(tokens@) == Err::<SerdeContainerView, Seq<char>>(
                    e@,
                ),
            },
    {
        let mut container = SerdeContainer {
            rename_all: None,
            tag: String::new(),
            content: String::new(),
            untagged: false,
            default: false,
        };
        let n = tokens.len();
        for i in 0..n
            invariant
                n == tokens@.len(),
                container_upto(tokens@, i as int) == Ok::<SerdeContainerView, Seq<char>>(
                    container@,
                ),
        {
            let t = &tokens[i];
            if token_is_ident(t, "rename_all") {
                if let Some(literal) = parse_next_lit_str(tokens, i + 1) {
                    match RenameRule::from_name(literal.as_str()) {
                        Ok(rule) => {
                            container.rename_all = Some(rule);
                        },
                        Err(e) => {
                            proof {
                                assert forall|k: int| i < k <= n implies container_upto(
                                    tokens@,
                                    k,
                                ) == Err::<SerdeContainerView, Seq<char>>(e@) by {
                                    lemma_container_err_stays(tokens@, i as int + 1, k, e@);
                                }
                            }
                            return Err(e);
                        },
                    }
                }
            } else if token_is_ident(t, "tag") {
                if let Some(literal) = parse_next_lit_str(tokens, i + 1) {
                    container.tag = literal;
                }
            } else if token_is_ident(t, "content") {
                if let Some(literal) = parse_next_lit_str(tokens, i + 1) {
                    container.content = literal;
                }
            } else if token_is_ident(t, "untagged") {
                container.untagged = true;
            } else if token_is_ident(t, "default") {
                container.default = true;
            }
        }
        Ok(container)
    }
}

proof fn lemma_container_err_stays(tokens: Seq<Token>, a: int, b: int, e: Seq<char>)
    requires
        0 < a <= b,
        container_upto(tokens, a) == Err::<SerdeContainerView, Seq<char>>(e),
    ensures
        container_upto(tokens, b) == Err::<SerdeContainerView, Seq<char>>(e),
    decreases b - a,
{
    if a < b {
        lemma_container_err_stays(tokens, a, b - 1, e);
    }
}

/// How serde represents an enum, as its container attributes select it.
pub enum SerdeEnumRepr {
    /// No `tag`, `content` or `untagged`: `{"Variant": ...}`.
    ExternallyTagged,
    /// `tag = "..."`: the tag is a property of the variant's object.
    InternallyTagged { tag: String },
    /// `untagged`: only the variant's content.
    Untagged,
    /// `tag = "..."` with `content = "..."`: the tag and the content side by
    /// side.
    AdjacentlyTagged { tag: String, content: String },
    /// `content = "..."` without a `tag`, which serde itself refuses.
    UnfinishedAdjacentlyTagged { content: String },
}

/// The plain-value view of a [`SerdeEnumRepr`].
pub enum SerdeEnumReprView {
    ExternallyTagged,
    InternallyTagged { tag: Seq<char> },
    Untagged,
    AdjacentlyTagged { tag: Seq<char>, content: Seq<char> },
    UnfinishedAdjacentlyTagged { content: Seq<char> },
}

impl View for SerdeEnumRepr {
    type V = SerdeEnumReprView;

    open spec fn view(&self) -> SerdeEnumReprView {
        match self {
            SerdeEnumRepr::ExternallyTagged => SerdeEnumReprView::ExternallyTagged,
            SerdeEnumRepr::InternallyTagged { tag } => SerdeEnumReprView::InternallyTagged {
                tag: tag@,
            },
            SerdeEnumRepr::Untagged => SerdeEnumReprView::Untagged,
            SerdeEnumRepr::AdjacentlyTagged { tag, content } =>
                SerdeEnumReprView::AdjacentlyTagged { tag: tag@, content: content@ },
            SerdeEnumRepr::UnfinishedAdjacentlyTagged { content } =>
                SerdeEnumReprView::UnfinishedAdjacentlyTagged { content: content@ },
        }
    }
}

/// The representation that container attributes select: `untagged` wins;
/// else a `tag` with a `content` is adjacent, a `tag` alone internal, a
/// `content` alone unfinished, and neither external. An empty `tag` or
/// `content` counts as absent.
pub open spec fn spec_enum_repr(c: SerdeContainerView) -> SerdeEnumReprView {
    if c.untagged {
        SerdeEnumReprView::Untagged
    } else if c.tag.len() > 0 && c.content.len() > 0 {
        SerdeEnumReprView::AdjacentlyTagged { tag: c.tag, content: c.content }
    } else if c.tag.len() > 0 {
        SerdeEnumReprView::InternallyTagged { tag: c.tag }
    } else if c.content.len() > 0 {
        SerdeEnumReprView::UnfinishedAdjacentlyTagged { content: c.content }
    } else {
        SerdeEnumReprView::ExternallyTagged
    }
}

impl SerdeContainer {
    /// The enum representation that these attributes select.
    pub fn enum_repr(&self) -> (res: SerdeEnumRepr)
        ensures
            res@ == spec_enum_repr(self@),
    {
        if self.untagged {
            SerdeEnumRepr::Untagged
        } else if !self.tag.as_str().is_empty() && !self.content.as_str().is_empty() {
            SerdeEnumRepr::AdjacentlyTagged { tag: self.tag.clone(), content: self.content.clone() }
        } else if !self.tag.as_str().is_empty() {
            SerdeEnumRepr::InternallyTagged { tag: self.tag.clone() }
        } else if !self.content.as_str().is_empty() {
            SerdeEnumRepr::UnfinishedAdjacentlyTagged { content: self.content.clone() }
        } else {
            SerdeEnumRepr::ExternallyTagged
        }
    }
}

/// The field attributes of the first `#[serde(...)]` attribute, if any.
pub fn parse_value(attributes: &Vec<Attribute>) -> (res: Option<SerdeValue>)
    ensures
        match res {
            Some(v) => exists|i: int|
                0 <= i < attributes@.len() && attr_is(attributes@[i], "serde"@) && (forall|j: int|
                    0 <= j < i ==> !attr_is(#[trigger] attributes@[j], "serde"@)) && v@
                    == spec_parse_value(attributes@[i].args@),
            None => forall|j: int|
                0 <= j < attributes@.len() ==> !attr_is(#[trigger] attributes@[j], "serde"@),
        },
{
    match find_attribute(attributes, "serde") {
        Some(i) => Some(SerdeValue::parse(&attributes[i].args)),
        None => None,
    }
}

/// The container attributes of the first `#[serde(...)]` attribute, if any,
/// or the error of its arguments.
pub fn parse_container(attributes: &Vec<Attribute>) -> (res: Result<Option<SerdeContainer>, String>)
    ensures
        match res {
            Ok(Some(c)) => exists|i: int|
                0 <= i < attributes@.len() && attr_is(attributes@[i], "serde"@) && (forall|j: int|
                    0 <= j < i ==> !attr_is(#[trigger] attributes@[j], "serde"@))
                    && spec_parse_container(attributes@[i].args@) == Ok::<
                    SerdeContainerView,
                    Seq<char>,
                >(c@),
            Ok(None) => forall|j: int|
                0 <= j < attributes@.len() ==> !attr_is(#[trigger] attributes@[j], "serde"@),
            Err(e) => exists|i: int|
                0 <= i < attributes@.len() && attr_is(attributes@[i], "serde"@) && (forall|j: int|
                    0 <= j < i ==> !attr_is(#[trigger] attributes@[j], "serde"@))
                    && spec_parse_container(attributes@[i].args@) == Err::<
                    SerdeContainerView,
                    Seq<char>,
                >(e@),
        },
{
    match find_attribute(attributes, "serde") {
        Some(i) => match SerdeContainer::parse(&attributes[i].args) {
            Ok(c) => Ok(Some(c)),
            Err(e) => Err(e),
        },
        None => Ok(None),
    }
}

/// Whether the container or the field has serde's `default` set.
pub fn is_default(container_rules: &SerdeContainer, field_rule: &SerdeValue) -> (res: bool)
    ensures
        res == (container_rules.default || field_rule.default),
{
    container_rules.default || field_rule.default
}

/// A field is required unless it has `skip_serializing_if`, a double option,
/// or a `default`.
pub fn is_required(field_rule: &SerdeValue, container_rules: &SerdeContainer) -> (res: bool)
    ensures
        res == (!field_rule.skip_serializing_if && !field_rule.double_option && !(
        container_rules.default || field_rule.default)),
{
    !field_rule.skip_serializing_if && !field_rule.double_option && !is_default(
        container_rules,
        field_rule,
    )
}

/// Which names a rule renames: struct fields or enum variants.
#[derive(PartialEq, Eq, Structural, Clone, Copy, Debug)]
pub enum RenameTarget {
    Field,
    Variant,
}

/// What the rule gives of the name, for the target.
pub open spec fn spec_rename_by(target: RenameTarget, rule: RenameRule, value: Seq<char>) -> Seq<
    char,
> {
    match target {
        RenameTarget::Field => spec_rename(rule, value),
        RenameTarget::Variant => spec_rename_variant(rule, value),
    }
}

/// The rules that slice off the first byte of a name, for the target.
pub open spec fn rename_needs_first_char(target: RenameTarget, rule: RenameRule) -> bool {
    match target {
        RenameTarget::Field => rule == RenameRule::Pascal,
        RenameTarget::Variant => rule == RenameRule::Camel,
    }
}

/// An explicit, non-empty rename wins; else the container's rule renames the
/// value; with neither there is no rename.
pub open spec fn spec_rename_value(
    target: RenameTarget,
    value: Seq<char>,
    to: Option<Seq<char>>,
    container_rule: Option<RenameRule>,
) -> Option<Seq<char>> {
    match to {
        Some(t) if t.len() > 0 => Some(t),
        _ => match container_rule {
            Some(rule) => Some(spec_rename_by(target, rule, value)),
            None => None,
        },
    }
}

/// The view of an optional string.
pub open spec fn opt_view(o: Option<String>) -> Option<Seq<char>> {
    match o {
        Some(s) => Some(s@),
        None => None,
    }
}

/// Renames a field or variant name: by `to` where it is given and not empty,
/// else by the container's rule.
pub fn rename(
    target: RenameTarget,
    value: &str,
    to: Option<String>,
    container_rule: Option<RenameRule>,
) -> (res: Option<String>)
    requires
        (match to {
            Some(t) => t@.len() == 0,
            None => true,
        }) ==> (match container_rule {
            Some(rule) => rename_needs_first_char(target, rule) ==> slices_first_char(value@),
            None => true,
        }),
    ensures
        opt_view(res) == spec_rename_value(target, value@, opt_view(to), container_rule),
{
    let explicit = match to {
        Some(t) => if t.as_str().is_empty() {
            None
        } else {
            Some(t)
        },
        None => None,
    };
    match explicit {
        Some(t) => Some(t),
        None => match container_rule {
            Some(rule) => match target {
                RenameTarget::Field => Some(rule.rename(value)),
                RenameTarget::Variant => Some(rule.rename_variant(value)),
            },
            None => None,
        },
    }
}

/// The explicit rename of an enum variant: the serde `rename`, else the value
/// of the `rename` feature that is taken out of the features.
pub open spec fn variant_rename_to(
    features: Seq<Feature>,
    variant_rules: SerdeValueView,
) -> Option<Seq<char>> {
    match variant_rules.rename {
        Some(r) => Some(r),
        None => match spec_pop_by(features, FeatureKind::Rename).0 {
            Some(Feature::Rename(r)) => Some(r.0@),
            _ => None,
        },
    }
}

/// The rule that renames all variants: the container's serde `rename_all`,
/// else the `rename_all` feature.
pub open spec fn variant_rename_rule(
    container_rules: SerdeContainerView,
    rename_all: Option<RenameRule>,
) -> Option<RenameRule> {
    match container_rules.rename_all {
        Some(r) => Some(r),
        None => rename_all,
    }
}

/// The rule of an optional `rename_all` feature.
pub open spec fn rename_all_rule(rename_all: Option<&RenameAll>) -> Option<RenameRule> {
    match rename_all {
        Some(r) => Some(r.0),
        None => None,
    }
}

/// Renames an enum variant: its serde `rename`, else its `rename` feature
/// (which is taken out of the features), else the container's `rename_all`
/// rule, else the `rename_all` feature; none of them gives no rename.
pub fn rename_enum_variant(
    name: &str,
    features: &mut Vec<Feature>,
    variant_rules: &SerdeValue,
    container_rules: &SerdeContainer,
    rename_all: Option<&RenameAll>,
) -> (res: Option<String>)
    requires
        ({
            let to = variant_rename_to(old(features)@, variant_rules@);
            let rule = variant_rename_rule(container_rules@, rename_all_rule(rename_all));
            (match to {
                Some(t) => t.len() == 0,
                None => true,
            }) ==> (match rule {
                Some(r) => rename_needs_first_char(RenameTarget::Variant, r) ==> slices_first_char(
                    name@,
                ),
                None => true,
            })
        }),
    ensures
        final(features)@ == spec_pop_by(old(features)@, FeatureKind::Rename).1,
        opt_view(res) == spec_rename_value(
            RenameTarget::Variant,
            name@,
            variant_rename_to(old(features)@, variant_rules@),
            variant_rename_rule(container_rules@, rename_all_rule(rename_all)),
        ),
{
    let popped = pop_by(features, FeatureKind::Rename);
    let feature_rename: Option<String> = match popped {
        Some(Feature::Rename(r)) => Some(r.into_value()),
        _ => None,
    };
    let rename_to: Option<String> = match &variant_rules.rename {
        Some(r) => Some(r.clone()),
        None => feature_rename,
    };
    let rule: Option<RenameRule> = match container_rules.rename_all {
        Some(r) => Some(r),
        None => match rename_all {
            Some(ra) => Some(*ra.as_rename_rule()),
            None => None,
        },
    };
    rename(RenameTarget::Variant, name, rename_to, rule)
}

} // verus!
