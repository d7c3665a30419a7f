use todos::{contains_todo_type, LineMismatch, TodoType};

#[test]
fn test_todo_types() {
    // Handles JS/TS comments
    assert!(contains_todo_type("// TODO: This is a todo").is_ok());
    assert!(contains_todo_type("// FIX: This is a fix").is_ok());
    assert!(contains_todo_type("// WARNING: This is a warning").is_ok());
    assert!(contains_todo_type("// NOTE: This is a note").is_ok());

    // Handles HTML comments
    assert!(contains_todo_type("<!-- TODO: This is a todo -->").is_ok());
    assert!(contains_todo_type("<!-- FIX: This is a fix -->").is_ok());
    assert!(contains_todo_type("<!-- WARNING: This is a warning -->").is_ok());
    assert!(contains_todo_type("<!-- NOTE: This is a note -->").is_ok());
}

#[test]
fn test_todo_types_without_spacing() {
    // Handles JS/TS comments
    assert!(contains_todo_type("//TODO: This is a todo").is_ok());
    assert!(contains_todo_type("//FIX: This is a fix").is_ok());
    assert!(contains_todo_type("//WARNING: This is a warning").is_ok());
    assert!(contains_todo_type("//NOTE: This is a note").is_ok());

    // Handles HTML comments
    assert!(contains_todo_type("<!--TODO: This is a todo-->").is_ok());
    assert!(contains_todo_type("<!--FIX: This is a fix-->").is_ok());
    assert!(contains_todo_type("<!--WARNING: This is a warning-->").is_ok());
    assert!(contains_todo_type("<!--NOTE: This is a note-->").is_ok());
}

#[test]
fn probe_reports_the_kind() {
    assert_eq!(contains_todo_type("  // WARNING: hot"), Ok(TodoType::Warning));
    assert_eq!(contains_todo_type("<!-- NOTE - x -->"), Ok(TodoType::Note));
}

#[test]
fn probe_without_comment_opener() {
    assert_eq!(contains_todo_type("TODO: not a comment"), Err(LineMismatch::NoCommentOpen));
    assert_eq!(contains_todo_type("# TODO: shell comment"), Err(LineMismatch::NoCommentOpen));
    assert_eq!(contains_todo_type(""), Err(LineMismatch::NoCommentOpen));
}

#[test]
fn probe_with_unrecognized_token() {
    assert_eq!(contains_todo_type("// HACK: something"), Err(LineMismatch::UnrecognizedToken));
    assert_eq!(contains_todo_type("//   TODO: two spaces"), Err(LineMismatch::UnrecognizedToken));
    assert_eq!(contains_todo_type("//"), Err(LineMismatch::UnrecognizedToken));
}

#[test]
fn probe_with_missing_separator() {
    assert_eq!(contains_todo_type("// TODO"), Err(LineMismatch::MissingSeparator));
    assert_eq!(contains_todo_type("// TODOS for later"), Err(LineMismatch::MissingSeparator));
}
