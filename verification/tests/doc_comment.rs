use utoipa_gen::doc_comment::CommentAttributes;
use utoipa_gen::tokens::Attribute;

fn doc(s: &str) -> Attribute {
    Attribute { path: vec!["doc".to_string()], args: vec![], name_value_str: Some(s.to_string()) }
}

#[test]
fn doc_comments_lose_common_indent_and_trailing_space() {
    let attrs = vec![
        doc(" Summary  "),
        Attribute { path: vec!["serde".to_string()], args: vec![], name_value_str: None },
        doc(""),
        doc("   indented\t"),
    ];
    let comments = CommentAttributes::from_attributes(&attrs);
    assert_eq!(comments.0, vec!["Summary".to_string(), "".to_string(), "  indented".to_string()]);
    assert!(!comments.is_empty());
    assert_eq!(comments.as_formatted_string(), "Summary\n\n  indented");
}

#[test]
fn doc_without_string_value_is_skipped() {
    let attrs = vec![
        Attribute { path: vec!["doc".to_string()], args: vec![], name_value_str: None },
        doc(" only"),
    ];
    let comments = CommentAttributes::from_attributes(&attrs);
    assert_eq!(comments.0, vec!["only".to_string()]);
}

#[test]
fn no_doc_comments() {
    let comments = CommentAttributes::from_attributes(&vec![]);
    assert!(comments.is_empty());
    assert_eq!(comments.as_formatted_string(), "");
}

#[test]
fn blank_lines_only_keep_their_count() {
    let comments = CommentAttributes::from_attributes(&vec![doc("   "), doc("")]);
    assert_eq!(comments.0, vec!["".to_string(), "".to_string()]);
    assert_eq!(comments.as_formatted_string(), "\n");
}

#[test]
fn unicode_white_space_is_trimmed_at_the_end() {
    let comments = CommentAttributes::from_attributes(&vec![doc(" Wide\u{3000}\u{a0}\u{2028}"), doc(" Kept\u{200b}")]);
    assert_eq!(comments.0, vec!["Wide".to_string(), "Kept\u{200b}".to_string()]);
}
