use utoipa_gen::attrs::{IsInlineAttr, SchemaAttr, Title};

#[test]
fn schema_attr_is_inline_follows_its_attributes() {
    let attr = SchemaAttr { inner: Title(Some("t".to_string())) };
    assert!(!attr.is_inline());
    assert!(attr.as_ref().0.is_some());
}
