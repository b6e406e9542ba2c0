use utoipa_gen::attrs::{
    ComponentDescription, ItemKind, Module, ModuleAttr, ModuleItem, ModuleItemSource, Roo,
};
use utoipa_gen::doc_comment::CommentAttributes;
use utoipa_gen::features::Description;
use utoipa_gen::tokens::{Attribute, Token};

fn attr(path: &[&str], args: Vec<Token>) -> Attribute {
    Attribute {
        path: path.iter().map(|s| s.to_string()).collect(),
        args,
        name_value_str: None,
    }
}

fn ident(s: &str) -> Token {
    Token::Ident(s.to_string())
}

fn derive(names: &[&str]) -> Attribute {
    let mut args = vec![];
    for (i, n) in names.iter().enumerate() {
        if i > 0 {
            args.push(Token::Punct(','));
        }
        args.push(ident(n));
    }
    attr(&["derive"], args)
}

fn item(kind: ItemKind, name: &str, attrs: Vec<Attribute>) -> ModuleItemSource {
    ModuleItemSource { kind, ident: name.to_string(), attrs }
}

fn describe(items: &[ModuleItem]) -> Vec<(u8, String)> {
    items
        .iter()
        .map(|i| match i {
            ModuleItem::Schema(s) => (0, s.clone()),
            ModuleItem::Response(s) => (1, s.clone()),
            ModuleItem::Path(s) => (2, s.clone()),
        })
        .collect()
}

#[test]
fn module_attr_scope() {
    let tokens = vec![ident("scope"), Token::Punct('='), Token::Literal("\"/api\"".to_string())];
    assert_eq!(ModuleAttr::parse(&tokens).ok().unwrap().scope, "/api");
    assert_eq!(ModuleAttr::parse(&vec![ident("other")]).ok().unwrap().scope, "");
    assert!(ModuleAttr::parse(&vec![]).is_err());
    assert!(ModuleAttr::parse(&vec![ident("scope")]).is_err());
    assert!(ModuleAttr::parse(&vec![Token::Punct('=')]).is_err());
}

#[test]
fn utoipa_derive_and_path_attributes() {
    let attrs = vec![
        attr(&["allow"], vec![ident("unused")]),
        attr(&["derive"], vec![ident("utoipa"), Token::Punct(':'), Token::Punct(':'), ident("ToSchema")]),
    ];
    assert!(Module::is_utoipa_derive(&attrs, "ToSchema"));
    assert!(!Module::is_utoipa_derive(&attrs, "ToResponse"));
    assert!(Module::is_utoipa_path(&vec![attr(&["utoipa", "path"], vec![ident("get")])]));
    assert!(Module::is_utoipa_path(&vec![attr(&["path"], vec![])]));
    assert!(!Module::is_utoipa_path(&vec![attr(&["utoipa", "other"], vec![])]));
}

#[test]
fn module_lists_documented_items_in_order() {
    let items = vec![
        item(ItemKind::Struct, "Value", vec![derive(&["Debug", "ToSchema"])]),
        item(ItemKind::Enum, "Reply", vec![derive(&["ToResponse"])]),
        item(ItemKind::Enum, "Both", vec![derive(&["ToResponse", "ToSchema"])]),
        item(ItemKind::Fn, "get_item", vec![attr(&["utoipa", "path"], vec![ident("get")])]),
        item(ItemKind::Fn, "helper", vec![]),
        item(ItemKind::Other, "CONST", vec![derive(&["ToSchema"])]),
        item(ItemKind::Struct, "Plain", vec![derive(&["Debug"])]),
    ];
    let module = Module::new(ModuleAttr { scope: String::new() }, &items);
    assert_eq!(
        describe(&module.items),
        vec![
            (0, "Value".to_string()),
            (1, "Reply".to_string()),
            (0, "Both".to_string()),
            (2, "get_item".to_string()),
        ]
    );
}

#[test]
fn component_description_text() {
    let comments = CommentAttributes(vec!["line one".to_string(), "line two".to_string()]);
    assert_eq!(
        ComponentDescription::CommentAttributes(&comments).description(),
        Some("line one\nline two".to_string())
    );
    let empty = CommentAttributes(vec![]);
    assert_eq!(ComponentDescription::CommentAttributes(&empty).description(), None);
    let explicit = Description("explicit".to_string());
    assert_eq!(ComponentDescription::Description(&explicit).description(), Some("explicit".to_string()));
    let blank = Description(String::new());
    assert_eq!(ComponentDescription::Description(&blank).description(), None);
}

#[test]
fn roo_derefs_to_the_value() {
    let owned: Roo<'_, i32> = Roo::Owned(3);
    assert_eq!(*owned.deref(), 3);
    let x = 7;
    let borrowed = Roo::Ref(&x);
    assert_eq!(*borrowed.deref(), 7);
}
