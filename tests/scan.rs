use todos::{parse_ignore_list, scan_entries, scan_file, Entry, ScanConfig, ScanReport};

fn config(needle: Option<&str>) -> ScanConfig {
    ScanConfig {
        ignore: vec!["src/gen".to_string(), "src/skip.ts".to_string()],
        extensions: ["ts", "js", "tsx", "jsx", "vue", "html", "scss"]
            .iter()
            .map(|e| e.to_string())
            .collect(),
        needle: needle.map(|n| n.to_string()),
    }
}

fn entry(path: &str, parent: &str, is_dir: bool, ext: Option<&str>, text: Option<&str>) -> Entry {
    Entry {
        path: path.to_string(),
        parent: parent.to_string(),
        is_dir,
        extension: ext.map(|e| e.to_string()),
        contents: text.map(|t| t.to_string()),
    }
}

fn walk() -> Vec<Entry> {
    vec![
        entry("src", ".", true, None, None),
        entry("src/a.ts", "src", false, Some("ts"), Some("let a = 1;\n// TODO: first\n// FIX: second\n")),
        entry("src/b.js", "src", false, Some("js"), Some("const b = 2;\n")),
        entry("src/c.html", "src", false, Some("html"), Some("<!-- plain comment -->\n")),
        entry("src/gen", "src", true, None, None),
        entry("src/gen/d.ts", "src/gen", false, Some("ts"), None),
        entry("src/skip.ts", "src", false, Some("ts"), None),
        entry("src/e.rs", "src", false, Some("rs"), None),
        entry("src/Makefile", "src", false, None, None),
        entry("src/f.vue", "src", false, Some("vue"), Some("<!--WARNING: careful-->\r\n")),
    ]
}

fn summary(r: &ScanReport) -> (usize, usize, usize) {
    (r.summary.files_scanned, r.summary.ok_files, r.summary.filtered)
}

#[test]
fn text_without_openers_is_ok() {
    let r = scan_file("const a = 1;\nlet b = a * 2;\n", &"x.ts".to_string(), &None);
    assert!(r.ok);
    assert!(r.todos.is_empty());
    assert_eq!(r.filtered, 0);
}

#[test]
fn empty_text_is_ok() {
    let r = scan_file("", &"x.ts".to_string(), &Some("a".to_string()));
    assert!(r.ok);
    assert!(r.todos.is_empty());
}

#[test]
fn comments_without_markers_are_ok() {
    let r = scan_file("// just a comment\n<!-- another -->\n", &"x.ts".to_string(), &None);
    assert!(r.ok);
    assert!(r.todos.is_empty());
}

#[test]
fn lines_are_numbered_from_one() {
    let text = "a\r\n  // TODO: one\n\n<!-- FIX: two -->\nb // NOTE: not at start";
    let r = scan_file(text, &"y.html".to_string(), &None);
    assert!(!r.ok);
    assert_eq!(r.todos.len(), 2);
    assert_eq!(r.todos[0].line_number, (2, 6));
    assert_eq!(r.todos[0].text, "one");
    assert_eq!(r.todos[0].file_path, "y.html");
    assert_eq!(r.todos[1].line_number, (4, 6));
    assert_eq!(r.todos[1].text, "two");
}

#[test]
fn needle_drops_and_counts() {
    let text = "// TODO: fix the parser\n// TODO: write docs\n// NOTE: parser is slow\n";
    let all = scan_file(text, &"p.ts".to_string(), &None);
    let some = scan_file(text, &"p.ts".to_string(), &Some("parser".to_string()));
    assert_eq!(all.todos.len(), 3);
    assert_eq!(all.filtered, 0);
    assert_eq!(some.todos.len(), 2);
    assert_eq!(some.filtered, 1);
    assert_eq!(some.todos[0].text, "fix the parser");
    assert_eq!(some.todos[1].text, "parser is slow");
    assert_eq!(some.ok, all.ok);
}

#[test]
fn needle_that_drops_everything_leaves_file_not_ok() {
    let r = scan_file("// TODO: a\n", &"p.ts".to_string(), &Some("zzz".to_string()));
    assert!(r.todos.is_empty());
    assert_eq!(r.filtered, 1);
    assert!(!r.ok);
}

#[test]
fn ignore_list_skips_comments_and_blanks() {
    let list = parse_ignore_list("# build output\ntarget\n\n  src/gen  \n#x\r\nnode_modules\r\n");
    assert_eq!(list, vec!["target".to_string(), "src/gen".to_string(), "node_modules".to_string()]);
    assert!(parse_ignore_list("").is_empty());
}

#[test]
fn candidates_follow_ignore_dir_and_extension() {
    let c = config(None);
    let s = |x: &str| x.to_string();
    assert!(c.is_candidate(&s("src/a.ts"), &s("src"), false, &Some(s("ts"))));
    assert!(!c.is_candidate(&s("src/gen/d.ts"), &s("src/gen"), false, &Some(s("ts"))));
    assert!(!c.is_candidate(&s("src/skip.ts"), &s("src"), false, &Some(s("ts"))));
    assert!(!c.is_candidate(&s("src/dir.ts"), &s("src"), true, &Some(s("ts"))));
    assert!(!c.is_candidate(&s("src/Makefile"), &s("src"), false, &None));
    assert!(!c.is_candidate(&s("src/e.rs"), &s("src"), false, &Some(s("rs"))));
    assert!(!c.is_candidate(&s("src/e.TS"), &s("src"), false, &Some(s("TS"))));
}

#[test]
fn walk_is_scanned_in_order() {
    let r = scan_entries(&config(None), &walk());
    assert_eq!(summary(&r), (10, 2, 0));
    let got: Vec<(String, (usize, usize), String)> =
        r.todos.iter().map(|t| (t.file_path.clone(), t.line_number, t.text.clone())).collect();
    assert_eq!(
        got,
        vec![
            ("src/a.ts".to_string(), (2, 4), "first".to_string()),
            ("src/a.ts".to_string(), (3, 4), "second".to_string()),
            ("src/f.vue".to_string(), (1, 5), "careful".to_string()),
        ]
    );
}

#[test]
fn walk_with_needle() {
    let r = scan_entries(&config(Some("second")), &walk());
    assert_eq!(summary(&r), (10, 2, 2));
    assert_eq!(r.todos.len(), 1);
    assert_eq!(r.todos[0].text, "second");
}

#[test]
fn scanning_twice_gives_the_same_result() {
    let c = config(Some("i"));
    let first = scan_entries(&c, &walk());
    let second = scan_entries(&c, &walk());
    assert_eq!(summary(&first), summary(&second));
    assert_eq!(first.todos.len(), second.todos.len());
    for (a, b) in first.todos.iter().zip(second.todos.iter()) {
        assert_eq!(a.file_path, b.file_path);
        assert_eq!(a.line_number, b.line_number);
        assert_eq!(a.text, b.text);
        assert_eq!(a.todo_type, b.todo_type);
    }
}

#[test]
fn empty_walk() {
    let r = scan_entries(&config(None), &Vec::new());
    assert_eq!(summary(&r), (0, 0, 0));
    assert!(r.todos.is_empty());
}
