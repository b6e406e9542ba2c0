use utoipa_gen::diagnostics::Diagnostics;

#[test]
fn diagnostics_ordering_help_comes_before_note() {
    let diagnostics = Diagnostics::new("this an error".to_string())
        .note("you could do this to solve the error".to_string())
        .help("try this thing".to_string());

    let rendered = diagnostics.rendered_messages();

    assert_eq!(rendered.len(), 1);
    assert_eq!(
        rendered[0],
        "this an error\n\nhelp = try this thing\nnote = you could do this to solve the error"
    );
}

#[test]
fn diagnostics_without_suggestions_render_the_message_only() {
    let diagnostics = Diagnostics::new("plain error".to_string());
    assert_eq!(diagnostics.rendered_messages(), vec!["plain error".to_string()]);
    assert_eq!(diagnostics.message(), "plain error");
}

#[test]
fn diagnostics_suggestions_of_a_kind_are_ordered_by_text() {
    let diagnostics = Diagnostics::new("e".to_string())
        .note("b note".to_string())
        .help("z help".to_string())
        .note("a note".to_string())
        .help("a help".to_string());
    assert_eq!(
        diagnostics.rendered_messages()[0],
        "e\n\nhelp = a help\nhelp = z help\nnote = a note\nnote = b note"
    );
}

#[test]
fn diagnostics_keep_a_repeated_suggestion() {
    let diagnostics = Diagnostics::new("e".to_string())
        .help("same".to_string())
        .help("same".to_string());
    assert_eq!(diagnostics.rendered_messages()[0], "e\n\nhelp = same\nhelp = same");
}

#[test]
fn diagnostics_merge_keeps_both_errors_in_order() {
    let first = Diagnostics::new("first".to_string()).help("fix first".to_string());
    let second = Diagnostics::new("second".to_string());
    let merged = first.merge(second);
    assert_eq!(
        merged.rendered_messages(),
        vec!["first\n\nhelp = fix first".to_string(), "second".to_string()]
    );
    assert_eq!(merged.message(), "first");
}

#[test]
fn diagnostics_suggestions_go_to_the_first_error() {
    let merged = Diagnostics::new("first".to_string())
        .merge(Diagnostics::new("second".to_string()))
        .note("about the first".to_string());
    assert_eq!(
        merged.rendered_messages(),
        vec!["first\n\nnote = about the first".to_string(), "second".to_string()]
    );
}
