use ai_cli::file_edit::{
    change_written, confirm_and_apply_change, file_editor, needs_file, Change, EditStep, FileRead,
    CANCELLATION_MESSAGE,
};

fn content(text: &str) -> FileRead {
    FileRead::Content(text.to_string())
}

fn answer_of(step: EditStep) -> (String, bool) {
    match step {
        EditStep::Done { text, rejected } => (text, rejected),
        _ => panic!("an answer was expected"),
    }
}

fn change_of(step: EditStep) -> (Change, bool) {
    match step {
        EditStep::Confirm(change) => (change, true),
        EditStep::Write(change) => (change, false),
        EditStep::Done { text, .. } => panic!("a change was expected, not {}", text),
    }
}

#[test]
fn read_answers_with_the_content() {
    let step = file_editor("read", "notes.txt", None, None, true, &content("hello\n"));
    assert_eq!(answer_of(step), ("File contents:\nhello\n".to_string(), false));
}

#[test]
fn read_reports_a_file_that_cannot_be_read() {
    let file = FileRead::Failure("No such file or directory (os error 2)".to_string());
    let step = file_editor("read", "gone.txt", None, None, true, &file);
    assert_eq!(
        answer_of(step),
        ("Error reading file 'gone.txt': No such file or directory (os error 2)".to_string(), false)
    );
}

#[test]
fn write_asks_before_it_writes() {
    let step = file_editor("write", "a.txt", Some("new"), None, false, &content("old"));
    let (change, asks) = change_of(step);
    assert!(asks);
    assert_eq!(change.old_content, "old");
    assert_eq!(change.new_content, "new");
    assert_eq!(change.operation, "writing to");
    assert_eq!(change.done, "Successfully wrote to 'a.txt'");
}

#[test]
fn write_without_data_empties_the_file() {
    let file = FileRead::Failure("not there".to_string());
    let step = file_editor("write", "a.txt", None, None, true, &file);
    let (change, asks) = change_of(step);
    assert!(!asks);
    assert_eq!(change.old_content, "");
    assert_eq!(change.new_content, "");
}

#[test]
fn refused_write_changes_nothing_and_is_marked_rejected() {
    let step = file_editor("write", "a.txt", Some("new"), None, false, &content("old"));
    let (change, _) = change_of(step);
    let (text, rejected) = answer_of(confirm_and_apply_change(change, false));
    assert!(rejected);
    assert_eq!(text, CANCELLATION_MESSAGE);
    assert!(!text.starts_with("Successfully"));
}

#[test]
fn approved_write_is_written_and_reported() {
    let step = file_editor("write", "a.txt", Some("new"), None, false, &content("old"));
    let (change, _) = change_of(step);
    let change = match confirm_and_apply_change(change, true) {
        EditStep::Write(change) => change,
        _ => panic!("the change was approved"),
    };
    assert_eq!(change.new_content, "new");
    assert_eq!(
        answer_of(change_written("a.txt", change, None)),
        ("Successfully wrote to 'a.txt'".to_string(), false)
    );
}

#[test]
fn failed_write_is_reported() {
    let step = file_editor("write", "a.txt", Some("new"), None, true, &content("old"));
    let (change, _) = change_of(step);
    assert_eq!(
        answer_of(change_written("a.txt", change, Some("Permission denied".to_string()))),
        ("Error writing to 'a.txt': Permission denied".to_string(), false)
    );
}

#[test]
fn search_lists_matches_with_their_positions() {
    let step = file_editor("search", "a.txt", Some(r"b+"), None, true, &content("abba é bb"));
    assert_eq!(
        answer_of(step),
        (
            "Found 2 matches for pattern 'b+' in 'a.txt':\n - bb (at position 1)\n - bb (at position 8)"
                .to_string(),
            false
        )
    );
}

#[test]
fn search_without_matches_says_so() {
    let step = file_editor("search", "a.txt", Some("z"), None, true, &content("abba"));
    assert_eq!(answer_of(step), ("No matches found for pattern 'z' in 'a.txt'".to_string(), false));
}

#[test]
fn search_needs_a_pattern() {
    let step = file_editor("search", "a.txt", None, None, true, &content("abba"));
    assert_eq!(
        answer_of(step),
        ("Error: 'data' parameter with regex pattern is required for search".to_string(), false)
    );
}

#[test]
fn search_reports_a_bad_pattern_before_a_missing_file() {
    let file = FileRead::Failure("gone".to_string());
    let (text, rejected) = answer_of(file_editor("search", "a.txt", Some("("), None, true, &file));
    assert!(!rejected);
    assert!(text.starts_with("Error compiling regex pattern '(': "));
    assert!(text.len() > "Error compiling regex pattern '(': ".len());
    let (text, _) = answer_of(file_editor("search", "a.txt", Some("(a)"), None, true, &file));
    assert_eq!(text, "Error reading file 'a.txt': gone");
}

#[test]
fn search_and_replace_proposes_the_rewritten_text() {
    let step = file_editor(
        "search_and_replace",
        "a.txt",
        Some(r"(\w+)@(\w+)"),
        Some("$2 at $1"),
        false,
        &content("me@here, you@there"),
    );
    let (change, asks) = change_of(step);
    assert!(asks);
    assert_eq!(change.old_content, "me@here, you@there");
    assert_eq!(change.new_content, "here at me, there at you");
    assert_eq!(change.operation, "search and replace in");
    assert_eq!(
        change.done,
        "Successfully replaced pattern '(\\w+)@(\\w+)' with '$2 at $1' in 'a.txt'"
    );
}

#[test]
fn search_and_replace_needs_both_parameters() {
    let file = content("x");
    assert_eq!(
        answer_of(file_editor("search_and_replace", "a", None, Some("y"), false, &file)).0,
        "Error: 'data' parameter with regex pattern is required for search_and_replace"
    );
    assert_eq!(
        answer_of(file_editor("search_and_replace", "a", Some("x"), None, false, &file)).0,
        "Error: 'replacement' parameter is required for search_and_replace"
    );
}

#[test]
fn apply_diff_proposes_the_patched_text() {
    let diff = "@@ -1,2 +1,2 @@\n one\n-two\n+2\n";
    let step = file_editor("apply_diff", "a.txt", Some(diff), None, false, &content("one\ntwo\n"));
    let (change, asks) = change_of(step);
    assert!(asks);
    assert_eq!(change.new_content, "one\n2\n");
    assert_eq!(change.operation, "applying diff to");
    assert_eq!(change.done, "Successfully applied diff to 'a.txt'");
}

#[test]
fn a_diff_that_does_not_apply_is_answered_with_an_error() {
    let diff = "@@ -7,1 +7,0 @@\n-seven\n";
    let step = file_editor("apply_diff", "a.txt", Some(diff), None, true, &content("one\n"));
    assert_eq!(
        answer_of(step),
        ("Error parsing or applying diff: Diff removal line 6 is out of bounds".to_string(), false)
    );
}

#[test]
fn apply_diff_needs_a_diff() {
    let step = file_editor("apply_diff", "a.txt", None, None, true, &content("one\n"));
    assert_eq!(
        answer_of(step).0,
        "Error: 'data' parameter with diff content is required for apply_diff"
    );
}

#[test]
fn unknown_subcommand_is_answered_with_an_error() {
    let step = file_editor("delete", "a.txt", None, None, true, &content(""));
    assert_eq!(answer_of(step), ("Error: Unknown subcommand 'delete'".to_string(), false));
}

#[test]
fn a_file_outside_the_root_is_not_touched() {
    for name in ["/etc/hosts", "../x", "a/../../x", "\\server\\share", "C:\\x", "a/b/../../../c"] {
        for subcommand in ["read", "write", "search", "search_and_replace", "apply_diff", "other"] {
            let step = file_editor(subcommand, name, Some("x"), Some("y"), true, &content("text"));
            assert_eq!(
                answer_of(step),
                (format!("Error: Filename '{}' is outside the sandbox", name), false)
            );
        }
    }
    let step = file_editor("read", "a/../b/./c.txt", None, None, true, &content("in"));
    assert_eq!(answer_of(step), ("File contents:\nin".to_string(), false));
}

#[test]
fn the_file_is_read_only_where_the_answer_depends_on_it() {
    assert!(needs_file("read", "a.txt", None, None));
    assert!(needs_file("write", "a.txt", None, None));
    assert!(needs_file("search", "a.txt", Some("a+"), None));
    assert!(needs_file("search_and_replace", "a.txt", Some("a+"), Some("b")));
    assert!(needs_file("apply_diff", "a.txt", Some("@@"), None));
    let unread = [
        ("delete", "a.txt", None, None),
        ("", "a.txt", Some("x"), Some("y")),
        ("read", "../a.txt", None, None),
        ("write", "/etc/hosts", Some("x"), None),
        ("search", "a.txt", None, None),
        ("search", "a.txt", Some("("), None),
        ("search_and_replace", "a.txt", None, Some("b")),
        ("search_and_replace", "a.txt", Some("a"), None),
        ("search_and_replace", "a.txt", Some("("), Some("b")),
        ("apply_diff", "a.txt", None, None),
    ];
    for (subcommand, filename, data, replacement) in unread {
        assert!(!needs_file(subcommand, filename, data, replacement));
        let one = file_editor(subcommand, filename, data, replacement, false, &content("one"));
        let other = FileRead::Failure("gone".to_string());
        let other = file_editor(subcommand, filename, data, replacement, false, &other);
        assert_eq!(answer_of(one), answer_of(other));
    }
}
