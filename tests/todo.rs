use todos::{parse_todo, Todo, TodoType};

#[test]
fn test_todo_from() {
    let todo = Todo::from((0, "  // TODO: This is a todo", "test.rs".to_string()));

    assert_eq!(todo.line_number, (1, 6));
    assert_eq!(todo.text, "This is a todo");
    assert_eq!(todo.todo_type, TodoType::Todo);
}

#[test]
fn test_todo_from_with_other_delimiter() {
    let todo = Todo::from((0, "  // TODO -> This is a todo", "test.rs".to_string()));

    assert_eq!(todo.line_number, (1, 6));
    assert_eq!(todo.text, "This is a todo");
    assert_eq!(todo.todo_type, TodoType::Todo);
}

#[test]
fn test_todo_from_without_spacing() {
    let todo = Todo::from((0, "//TODO: This is a todo", "test.rs".to_string()));

    assert_eq!(todo.line_number, (1, 3));
    assert_eq!(todo.text, "This is a todo");
    assert_eq!(todo.todo_type, TodoType::Todo);
}

#[test]
fn todo_from_removes_closing_tag() {
    let todo = Todo::from((0, "<!-- TODO: This is a todo -->", "test.rs".to_string()));

    assert_eq!(todo.line_number, (1, 6));
    assert_eq!(todo.text, "This is a todo");
    assert_eq!(todo.todo_type, TodoType::Todo);
}

#[test]
fn every_comment_style_gives_the_message() {
    for line in ["// TODO: x", "//TODO: x", "<!-- TODO: x -->", "<!--TODO: x-->"] {
        let todo = parse_todo(line, 0, "a.ts".to_string()).expect(line);
        assert_eq!(todo.todo_type, TodoType::Todo);
        assert_eq!(todo.text, "x");
    }
}

#[test]
fn column_counts_blanks_opener_and_space() {
    let todo = parse_todo("  // TODO: This is a todo", 0, "a.ts".to_string()).unwrap();
    assert_eq!(todo.line_number, (1, 6));
    assert_eq!(todo.text, "This is a todo");
    assert_eq!(todo.todo_type, TodoType::Todo);
    assert_eq!(todo.file_path, "a.ts");
}

#[test]
fn column_without_space_after_opener() {
    let todo = parse_todo("//TODO: This is a todo", 0, "a.ts".to_string()).unwrap();
    assert_eq!(todo.line_number, (1, 3));
    assert_eq!(todo.text, "This is a todo");
}

#[test]
fn closing_tag_and_trailing_space_removed() {
    let todo = parse_todo("\t<!-- NOTE: keep this -->   ", 4, "b.html".to_string()).unwrap();
    assert_eq!(todo.line_number, (5, 7));
    assert_eq!(todo.text, "keep this");
    assert_eq!(todo.todo_type, TodoType::Note);
}

#[test]
fn each_kind_is_recognised() {
    let cases = [
        ("// FIX: a", TodoType::Fix),
        ("// WARNING: b", TodoType::Warning),
        ("// NOTE: c", TodoType::Note),
        ("// TODO: d", TodoType::Todo),
    ];
    for (line, kind) in cases {
        assert_eq!(parse_todo(line, 0, String::new()).unwrap().todo_type, kind);
    }
}

#[test]
fn message_starts_at_next_letter() {
    let todo = parse_todo("// FIX: 123 abc", 0, String::new()).unwrap();
    assert_eq!(todo.text, "abc");
}

#[test]
fn message_keeps_inner_text() {
    let todo = parse_todo("// TODO -> use é and 日本 here  ", 0, String::new()).unwrap();
    assert_eq!(todo.text, "use é and 日本 here");
}

#[test]
fn separator_without_letters_gives_empty_message() {
    let todo = parse_todo("// TODO: 42", 0, String::new()).unwrap();
    assert_eq!(todo.text, "");
    assert_eq!(todo.line_number, (1, 4));
}

#[test]
fn unknown_marker_gives_nothing() {
    assert!(parse_todo("// HACK: something", 0, String::new()).is_none());
    assert!(parse_todo("// todo: lower case", 0, String::new()).is_none());
}

#[test]
fn kind_labels_and_words() {
    assert_eq!(TodoType::Todo.label(), "TODO");
    assert_eq!(TodoType::Fix.label(), "FIX");
    assert_eq!(TodoType::Warning.label(), "WARNING");
    assert_eq!(TodoType::Note.label(), "NOTE");
    assert_eq!(TodoType::from("TODO"), TodoType::Todo);
    assert_eq!(TodoType::from("FIX"), TodoType::Fix);
    assert_eq!(TodoType::from("WARNING"), TodoType::Warning);
    assert_eq!(TodoType::from("NOTE"), TodoType::Note);
    assert_eq!(TodoType::Warning.token(), vec!['W', 'A', 'R', 'N', 'I', 'N', 'G']);
}
