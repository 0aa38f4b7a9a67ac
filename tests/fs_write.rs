use chat_cli::fs_write::{
    get_lines_with_context, line_number_at, terminal_width_required_for_line_count, FsWrite, PathSettings,
};
use chat_cli::tools::PermissionEvalResult;

fn create(file_text: Option<&str>, new_str: Option<&str>) -> FsWrite {
    FsWrite::Create {
        path: "/my-file".to_string(),
        file_text: file_text.map(str::to_string),
        new_str: new_str.map(str::to_string),
        summary: Some("Added hello world content".to_string()),
    }
}

#[test]
fn test_gutter_width() {
    assert_eq!(terminal_width_required_for_line_count(1), 1);
    assert_eq!(terminal_width_required_for_line_count(9), 1);
    assert_eq!(terminal_width_required_for_line_count(10), 2);
    assert_eq!(terminal_width_required_for_line_count(99), 2);
    assert_eq!(terminal_width_required_for_line_count(100), 3);
    assert_eq!(terminal_width_required_for_line_count(999), 3);
}

#[test]
fn gutter_width_of_zero_and_large_counts() {
    assert_eq!(terminal_width_required_for_line_count(0), 1);
    assert_eq!(terminal_width_required_for_line_count(1_000_000), 7);
}

#[test]
fn create_text_prefers_file_text_then_new_str() {
    assert_eq!(create(Some("hello world"), Some("x")).canonical_create_command_text(), "hello world");
    assert_eq!(create(None, Some("fallback")).canonical_create_command_text(), "fallback");
    assert_eq!(create(None, None).canonical_create_command_text(), "");
    assert_eq!(
        create(Some("a"), None).get_summary().map(|s| s.as_str()),
        Some("Added hello world content")
    );
}

#[test]
fn create_writes_text_with_a_final_newline() {
    assert_eq!(create(Some("Hello, world!"), None).apply(None).unwrap(), "Hello, world!\n");
    assert_eq!(create(Some("done\n"), None).apply(Some("old")).unwrap(), "done\n");
}

#[test]
fn str_replace_needs_exactly_one_match() {
    let cmd = |old: &str, new: &str| FsWrite::StrReplace {
        path: "/f".to_string(),
        old_str: old.to_string(),
        new_str: new.to_string(),
        summary: None,
    };
    assert_eq!(
        cmd("Hello world!", "Goodbye world!").apply(Some("1: Hello world!\n2: x\n")).unwrap(),
        "1: Goodbye world!\n2: x\n"
    );
    assert_eq!(
        cmd("asjidfopjaieopr", "1623749").apply(Some("abc")).unwrap_err(),
        "no occurrences of \"asjidfopjaieopr\" were found"
    );
    assert_eq!(
        cmd("a", "b").apply(Some("a a a")).unwrap_err(),
        "3 occurrences of old_str were found when only 1 is expected"
    );
    assert_eq!(cmd("aa", "b").apply(Some("aaa")).unwrap(), "ba");
    assert!(cmd("x", "y").apply(None).is_err());
}

#[test]
fn insert_at_line_boundaries() {
    let cmd = |line: usize, s: &str| FsWrite::Insert {
        path: "/f".to_string(),
        insert_line: line,
        new_str: s.to_string(),
        summary: None,
    };
    let file = "1: Hello world!\n2: second\n3: third\n";
    assert_eq!(
        cmd(0, "1: New first line!\n").apply(Some(file)).unwrap(),
        "1: New first line!\n1: Hello world!\n2: second\n3: third\n"
    );
    assert_eq!(
        cmd(1, "2: New second line!\n").apply(Some(file)).unwrap(),
        "1: Hello world!\n2: New second line!\n2: second\n3: third\n"
    );
    assert_eq!(cmd(99, "end\n").apply(Some(file)).unwrap(), format!("{}end\n", file));
    assert_eq!(cmd(0, "test").apply(Some("hello there")).unwrap(), "testhello there\n");
    assert_eq!(cmd(1, "test").apply(Some("hello there")).unwrap(), "hello theretest\n");
}

#[test]
fn append_adds_a_line_break_first() {
    let cmd = FsWrite::Append {
        path: "/f".to_string(),
        new_str: "5: Appended line".to_string(),
        summary: None,
    };
    assert_eq!(cmd.apply(Some("4: four")).unwrap(), "4: four\n5: Appended line\n");
    assert_eq!(cmd.apply(Some("4: four\n")).unwrap(), "4: four\n5: Appended line\n");
    assert!(cmd.apply(None).is_err(), "Appending to non-existent file should fail");
}

#[test]
fn validation_rules() {
    assert_eq!(create(Some("x"), None).validate(false), Ok(()));
    let empty_create = FsWrite::Create {
        path: String::new(),
        file_text: None,
        new_str: None,
        summary: None,
    };
    assert_eq!(empty_create.validate(true).unwrap_err(), "Path must not be empty");
    let replace = FsWrite::StrReplace {
        path: "/missing".to_string(),
        old_str: "a".to_string(),
        new_str: "b".to_string(),
        summary: None,
    };
    assert!(replace.validate(false).is_err());
    assert!(replace.validate(true).is_ok());
    let append = FsWrite::Append {
        path: "/f".to_string(),
        new_str: String::new(),
        summary: None,
    };
    assert_eq!(append.validate(true).unwrap_err(), "Content to append must not be empty");
}

#[test]
fn line_numbers_of_a_needle() {
    let content = "Hello\nWorld!\nhow\nare\nyou\ntoday?";
    assert_eq!(line_number_at(content, "World!\nhow"), Some((2, 3)));
    assert_eq!(line_number_at(content, "Hello"), Some((1, 1)));
    assert_eq!(line_number_at(content, "today?"), Some((6, 6)));
    assert_eq!(line_number_at(content, "missing"), None);
    assert_eq!(line_number_at(content, ""), Some((1, 1)));
}

#[test]
fn permission_follows_allow_list_and_path_rules() {
    let w = |path: &str| FsWrite::Create {
        path: path.to_string(),
        file_text: Some("x".to_string()),
        new_str: None,
        summary: None,
    };
    let settings = || {
        Some(Some(PathSettings {
            allowed_paths: vec!["/work/**".to_string(), "[invalid".to_string()],
            denied_paths: vec!["/work/secret/**".to_string()],
        }))
    };
    assert_eq!(w("/work/a.txt").eval_perm(false, None), PermissionEvalResult::Ask);
    assert_eq!(w("/work/a.txt").eval_perm(true, None), PermissionEvalResult::Allow);
    assert_eq!(w("/work/a.txt").eval_perm(true, Some(None)), PermissionEvalResult::Ask);
    assert_eq!(w("/work/a.txt").eval_perm(true, settings()), PermissionEvalResult::Allow);
    assert_eq!(w("/work/secret/k").eval_perm(true, settings()), PermissionEvalResult::Deny);
    assert_eq!(w("/etc/passwd").eval_perm(true, settings()), PermissionEvalResult::Ask);
}

#[test]
fn test_lines_with_context() {
    let content = "Hello\nWorld!\nhow\nare\nyou\ntoday?";
    let r = |a: usize, b: usize, c: usize| {
        let (p, s, x, e) = get_lines_with_context(content, a, b, c);
        (p, s, x, e)
    };
    let as_strs = |t: (String, usize, String, usize)| (t.0.clone(), t.1, t.2.clone(), t.3);
    assert_eq!(as_strs(r(1, 1, 1)), ("".to_string(), 1, "World!\n".to_string(), 2));
    assert_eq!(as_strs(r(0, 0, 2)), ("".to_string(), 1, "Hello\nWorld!\n".to_string(), 2));
    assert_eq!(as_strs(r(2, 4, 50)), ("Hello\n".to_string(), 1, "you\ntoday?".to_string(), 6));
    assert_eq!(as_strs(r(4, 100, 2)), ("World!\nhow\n".to_string(), 2, "".to_string(), 6));
}
