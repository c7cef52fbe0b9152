use ai_cli::patch::{
    apply_lines, apply_patch, apply_to_text, classify_line, parse_line_number, DiffLine,
    NumberFault, PatchError,
};

fn strings(v: &[&str]) -> Vec<String> {
    v.iter().map(|s| s.to_string()).collect()
}

#[test]
fn empty_diff_returns_the_text_unchanged() {
    assert_eq!(apply_patch("a\nb\n", ""), Ok("a\nb\n".to_string()));
    assert_eq!(apply_patch("a\r\nb", ""), Ok("a\r\nb".to_string()));
    assert_eq!(apply_patch("", ""), Ok(String::new()));
}

#[test]
fn a_diff_that_changes_nothing_returns_the_text_unchanged() {
    let diff = "@@ -1,2 +1,2 @@\n one\n two\n";
    for text in ["one\r\ntwo\n", "one\ntwo", "one\n\rtwo\r\n", "one\ntwo\n\n\n"] {
        assert_eq!(apply_patch(text, diff), Ok(text.to_string()));
    }
}

#[test]
fn replaces_one_line() {
    let diff = "--- a/file\n+++ b/file\n@@ -2,1 +2,1 @@\n-two\n+TWO\n";
    assert_eq!(apply_patch("one\ntwo\nthree", diff), Ok("one\nTWO\nthree".to_string()));
    assert_eq!(apply_patch("one\ntwo\nthree\n", diff), Ok("one\nTWO\nthree\n".to_string()));
}

#[test]
fn the_final_line_feed_is_kept() {
    let diff = "@@ -1,1 +1,1 @@\n-a\n+b\n";
    assert_eq!(apply_patch("a\n", diff), Ok("b\n".to_string()));
}

#[test]
fn untouched_lines_keep_their_line_ends() {
    let diff = "@@ -2,1 +2,1 @@\n-two\n+2\n";
    assert_eq!(apply_patch("one\r\ntwo\r\nthree\r\n", diff), Ok("one\r\n2\nthree\r\n".to_string()));
    let diff = "@@ -2,1 +2,1 @@\n-two\r\n+2\r\n";
    assert_eq!(apply_patch("one\r\ntwo\r\nthree\r\n", diff), Ok("one\r\n2\r\nthree\r\n".to_string()));
}

#[test]
fn a_marked_line_comes_without_line_feed() {
    let diff = "@@ -1,1 +1,1 @@\n-a\n\\ No newline at end of file\n+b\n\\ No newline at end of file\n";
    assert_eq!(apply_patch("a", diff), Ok("b".to_string()));
    let diff = "@@ -1,1 +1,1 @@\n-a\n+b\n\\ No newline at end of file\n";
    assert_eq!(apply_patch("a\n", diff), Ok("b".to_string()));
    let diff = "@@ -1,1 +1,1 @@\n-a\n\\ No newline at end of file\n+a\n";
    assert_eq!(apply_patch("a", diff), Ok("a\n".to_string()));
}

#[test]
fn a_line_after_a_line_without_line_feed_stays_a_line_of_its_own() {
    let diff = "@@ -1,1 +1,2 @@\n a\n+b\n";
    assert_eq!(apply_patch("a", diff), Ok("a\nb\n".to_string()));
    let diff = "@@ -1,0 +1,2 @@\n+x\n\\ No newline at end of file\n+y\n";
    assert_eq!(apply_patch("a\n", diff), Ok("x\ny\na\n".to_string()));
}

#[test]
fn a_diff_without_final_line_feed_applies() {
    let diff = "@@ -1,1 +1,1 @@\n-a\n+b";
    assert_eq!(apply_patch("a\n", diff), Ok("b\n".to_string()));
}

#[test]
fn later_hunks_account_for_earlier_ones() {
    let original = "a\nb\nc\nd\ne";
    let diff = "@@ -1,1 +1,3 @@\n a\n+x\n+y\n@@ -4,1 +6,1 @@\n-d\n+D\n";
    assert_eq!(apply_patch(original, diff), Ok("a\nx\ny\nb\nc\nD\ne".to_string()));
}

#[test]
fn two_hunks_in_one_diff_equal_two_diffs_in_turn() {
    let original = "a\nb\nc\nd\ne";
    let both = "@@ -1,2 +1,1 @@\n a\n-b\n@@ -4,1 +3,2 @@\n d\n+z\n";
    let first = "@@ -1,2 +1,1 @@\n a\n-b\n";
    let second = "@@ -3,1 +3,2 @@\n d\n+z\n";
    let one_pass = apply_patch(original, both).unwrap();
    let mid = apply_patch(original, first).unwrap();
    assert_eq!(mid, "a\nc\nd\ne");
    assert_eq!(apply_patch(&mid, second).unwrap(), one_pass);
    assert_eq!(one_pass, "a\nc\nd\nz\ne");
}

#[test]
fn an_empty_line_between_two_hunks_is_not_lost() {
    let first = "@@ -1,1 +1,1 @@\n-a\n+\n";
    let second = "@@ -2,0 +2,1 @@\n+z\n";
    let both = "@@ -1,1 +1,1 @@\n-a\n+\n@@ -2,0 +2,1 @@\n+z\n";
    let mid = apply_patch("a", first).unwrap();
    assert_eq!(mid, "\n");
    assert_eq!(apply_patch(&mid, second), Ok("\nz\n".to_string()));
    assert_eq!(apply_patch("a", both), Ok("\nz\n".to_string()));
}

#[test]
fn a_diff_computed_for_a_text_gives_the_new_text() {
    let old = "keep\ndrop\nlast";
    let diff = "@@ -1,3 +1,3 @@\n keep\n-drop\n+new\n last\n";
    assert_eq!(apply_patch(old, diff), Ok("keep\nnew\nlast".to_string()));
    let old = "keep\r\ndrop\nlast\n";
    let diff = "@@ -1,3 +1,4 @@\n keep\r\n-drop\n+new\r\n+newer\n last\n";
    assert_eq!(apply_patch(old, diff), Ok("keep\r\nnew\r\nnewer\nlast\n".to_string()));
}

#[test]
fn lines_that_begin_with_dashes_or_pluses_are_removed_and_added() {
    let diff = "@@ -1,2 +1,1 @@\n---x\n y\n";
    assert_eq!(apply_patch("--x\ny", diff), Ok("y".to_string()));
    let diff = "@@ -1,1 +1,2 @@\n y\n+++z\n";
    assert_eq!(apply_patch("y\n", diff), Ok("y\n++z\n".to_string()));
}

#[test]
fn file_headers_before_the_first_hunk_are_ignored() {
    let diff = "--- a/notes.txt\n+++ b/notes.txt\n@@ -1,1 +1,1 @@\n-a\n+b\n";
    assert_eq!(apply_patch("a\n", diff), Ok("b\n".to_string()));
}

#[test]
fn removal_past_the_end_is_rejected() {
    let diff = "@@ -3,1 +3,0 @@\n-gone\n";
    assert_eq!(
        apply_patch("a\nb", diff),
        Err("Diff removal line 2 is out of bounds".to_string())
    );
}

#[test]
fn addition_past_the_end_is_rejected() {
    let diff = "@@ -10,0 +10,1 @@\n+late\n";
    assert_eq!(
        apply_patch("a\nb", diff),
        Err("Diff addition line 9 is out of bounds".to_string())
    );
}

#[test]
fn hunk_before_the_first_line_is_rejected() {
    let diff = "@@ -0,0 +1,1 @@\n+first\n";
    assert_eq!(
        apply_patch("a", diff),
        Err("Diff hunk start line 0 is out of bounds".to_string())
    );
}

#[test]
fn too_large_line_number_is_rejected() {
    let diff = "@@ -99999999999999999999999999,1 +1,1 @@\n-a\n";
    assert_eq!(
        apply_patch("a", diff),
        Err("Invalid line number '99999999999999999999999999': number too large to fit in target type".to_string())
    );
}

#[test]
fn digits_outside_ascii_are_no_line_number() {
    let diff = "@@ -\u{0663},1 +1,1 @@\n-a\n";
    assert_eq!(
        apply_patch("a", diff),
        Err("Invalid line number '\u{0663}': invalid digit found in string".to_string())
    );
}

#[test]
fn an_unreadable_hunk_header_is_rejected() {
    assert_eq!(
        apply_patch("a", "@@ -x,1 +y,1 @@\n-a\n"),
        Err("Invalid hunk header '@@ -x,1 +y,1 @@'".to_string())
    );
    assert_eq!(
        apply_patch("a\nb", "@@ -1 +1 @@\n-a\n+A\n"),
        Err("Invalid hunk header '@@ -1 +1 @@'".to_string())
    );
    assert_eq!(
        apply_patch("a", "@@ nonsense @@\n+x\n"),
        Err("Invalid hunk header '@@ nonsense @@'".to_string())
    );
    assert_eq!(
        apply_patch("a", "@@ -1,1 +1,1 @@\n-a\n@@\n+x\n"),
        Err("Invalid hunk header '@@'".to_string())
    );
}

#[test]
fn lines_before_the_first_hunk_have_no_effect() {
    let diff = "+ignored\n-ignored\n ignored\n\\ ignored\n@@ -1,1 +1,2 @@\n a\n+b\n";
    assert_eq!(apply_patch("a\n", diff), Ok("a\nb\n".to_string()));
}

#[test]
fn failure_exposes_no_partial_result() {
    let diff = "@@ -1,1 +1,1 @@\n-a\n+A\n@@ -9,1 +9,0 @@\n-nothing\n";
    assert!(apply_patch("a\nb", diff).is_err());
}

#[test]
fn hunks_out_of_order_are_rejected() {
    let diff = "@@ -3,1 +3,1 @@\n-c\n+C\n@@ -1,1 +1,1 @@\n-a\n+A\n";
    assert_eq!(
        apply_patch("a\nb\nc", diff),
        Err("Diff hunk start line 1 is out of order".to_string())
    );
}

#[test]
fn overlapping_hunks_are_rejected() {
    let diff = "@@ -1,2 +1,2 @@\n a\n-b\n+B\n@@ -2,1 +2,1 @@\n-b\n+x\n";
    assert_eq!(
        apply_patch("a\nb\nc", diff),
        Err("Diff hunk start line 2 is out of order".to_string())
    );
}

#[test]
fn adjacent_hunks_apply() {
    let diff = "@@ -1,1 +1,1 @@\n-a\n+A\n@@ -2,1 +2,1 @@\n-b\n+B\n";
    assert_eq!(apply_patch("a\nb\nc", diff), Ok("A\nB\nc".to_string()));
}

#[test]
fn parse_line_number_reads_decimal() {
    assert!(matches!(parse_line_number("0"), Ok(0)));
    assert!(matches!(parse_line_number("42"), Ok(42)));
    assert!(matches!(parse_line_number("007"), Ok(7)));
    assert!(matches!(parse_line_number(""), Err(NumberFault::Empty)));
    assert!(matches!(parse_line_number("4x"), Err(NumberFault::InvalidDigit)));
    assert!(matches!(parse_line_number("+4"), Err(NumberFault::InvalidDigit)));
    assert!(matches!(
        parse_line_number("340282366920938463463374607431768211456"),
        Err(NumberFault::TooLarge)
    ));
}

#[test]
fn classify_line_tells_the_kinds_apart() {
    assert!(matches!(classify_line("@@ -3,1 +3,1 @@", Some("3".to_string())), DiffLine::HunkStart(3)));
    assert!(matches!(classify_line("@@ -3 +3 @@", None), DiffLine::BadHeader(l) if l == "@@ -3 +3 @@"));
    assert!(matches!(classify_line("--- a/x", None), DiffLine::Remove));
    assert!(matches!(classify_line("+++ b/x", None), DiffLine::Add(c) if c == "++ b/x"));
    assert!(matches!(classify_line("-x", None), DiffLine::Remove));
    assert!(matches!(classify_line(" x", None), DiffLine::Context));
    assert!(matches!(classify_line("", None), DiffLine::Skip));
    assert!(matches!(classify_line("@ x", None), DiffLine::Skip));
    assert!(matches!(classify_line("\\ No newline at end of file", None), DiffLine::NoLineEnd));
    match classify_line("+new line", None) {
        DiffLine::Add(content) => assert_eq!(content, "new line"),
        _ => panic!("an addition was expected"),
    }
}

#[test]
fn apply_lines_works_on_lines_with_their_line_ends() {
    let ops = vec![DiffLine::HunkStart(2), DiffLine::Remove, DiffLine::Add("c".to_string())];
    match apply_lines(strings(&["a\n", "b"]), &ops) {
        Ok(lines) => assert_eq!(lines, strings(&["a\n", "c\n"])),
        Err(_) => panic!("the diff applies"),
    }
    let ops = vec![
        DiffLine::HunkStart(2),
        DiffLine::Remove,
        DiffLine::Add("c".to_string()),
        DiffLine::NoLineEnd,
        DiffLine::NoLineEnd,
    ];
    match apply_lines(strings(&["a\n", "b"]), &ops) {
        Ok(lines) => assert_eq!(lines, strings(&["a\n", "c"])),
        Err(_) => panic!("the diff applies"),
    }
    let ops = vec![DiffLine::HunkStart(1), DiffLine::Context, DiffLine::NoLineEnd];
    match apply_lines(strings(&["a\n"]), &ops) {
        Ok(lines) => assert_eq!(lines, strings(&["a\n"])),
        Err(_) => panic!("the diff applies"),
    }
    let ops = vec![DiffLine::HunkStart(5), DiffLine::Remove];
    match apply_lines(strings(&["a"]), &ops) {
        Err(PatchError::RemovalOutOfBounds(4)) => {}
        _ => panic!("a removal out of bounds was expected"),
    }
}

#[test]
fn apply_to_text_works_on_classified_lines() {
    let ops = vec![DiffLine::HunkStart(1), DiffLine::Remove, DiffLine::Add("b".to_string())];
    assert!(matches!(apply_to_text("a\n", &ops), Ok(t) if t == "b\n"));
    assert!(matches!(apply_to_text("a\r\nz", &ops), Ok(t) if t == "b\nz"));
    assert!(matches!(apply_to_text("x", &vec![]), Ok(t) if t == "x"));
    let bad = vec![DiffLine::BadHeader("@@ ?".to_string())];
    assert!(matches!(apply_to_text("x", &bad), Err(PatchError::UnreadableHeader(l)) if l == "@@ ?"));
}

#[test]
fn error_messages_name_the_position() {
    assert_eq!(PatchError::RemovalOutOfBounds(12).message(), "Diff removal line 12 is out of bounds");
    assert_eq!(PatchError::AdditionOutOfBounds(0).message(), "Diff addition line 0 is out of bounds");
    assert_eq!(PatchError::HunkStartOutOfBounds(0).message(), "Diff hunk start line 0 is out of bounds");
    assert_eq!(PatchError::HunkOutOfOrder(7).message(), "Diff hunk start line 7 is out of order");
    assert_eq!(
        PatchError::UnreadableHeader("@@ -1 @@".to_string()).message(),
        "Invalid hunk header '@@ -1 @@'"
    );
    assert_eq!(
        PatchError::InvalidLineNumber("9x".to_string(), NumberFault::InvalidDigit).message(),
        "Invalid line number '9x': invalid digit found in string"
    );
    let ops = vec![DiffLine::HunkStart(2), DiffLine::Context, DiffLine::HunkStart(2)];
    match apply_lines(strings(&["a\n", "b\n", "c\n"]), &ops) {
        Err(PatchError::HunkOutOfOrder(2)) => {}
        _ => panic!("the second hunk starts before the end of the first"),
    }
}

#[test]
fn a_body_line_that_holds_header_text_is_no_header() {
    let diff = "@@ -1,1 +1,1 @@\n-x\n+@@ -1,1 +1,1 @@\n";
    assert_eq!(apply_patch("x\n", diff), Ok("@@ -1,1 +1,1 @@\n".to_string()));
    let diff = "@@ -1,1 +1,1 @@\n-@@ -9,9 +9,9 @@\n+x\n";
    assert_eq!(apply_patch("@@ -9,9 +9,9 @@\n", diff), Ok("x\n".to_string()));
    let diff = "@@ -1,2 +1,2 @@\n see @@ -7,1 +7,1 @@ below\n-b\n+B\n";
    assert_eq!(
        apply_patch("see @@ -7,1 +7,1 @@ below\nb\n", diff),
        Ok("see @@ -7,1 +7,1 @@ below\nB\n".to_string())
    );
    assert!(matches!(
        classify_line("+@@ -1,1 +1,1 @@", Some("1".to_string())),
        DiffLine::Add(c) if c == "@@ -1,1 +1,1 @@"
    ));
    assert!(matches!(classify_line("-@@ -1,1 +1,1 @@", Some("1".to_string())), DiffLine::Remove));
    assert!(matches!(classify_line(" @@ -1,1 +1,1 @@", Some("1".to_string())), DiffLine::Context));
    assert!(matches!(classify_line("x @@ -1,1 +1,1 @@", Some("1".to_string())), DiffLine::Skip));
}

#[test]
fn a_header_stands_at_the_start_of_its_line() {
    assert_eq!(
        apply_patch("a\n", "@@ junk @@ -1,1 +1,1 @@\n-a\n"),
        Err("Invalid hunk header '@@ junk @@ -1,1 +1,1 @@'".to_string())
    );
    assert_eq!(apply_patch("a\n", "@@ -1,1 +1,1 @@ fn main()\n-a\n+b\n"), Ok("b\n".to_string()));
}

#[test]
fn a_marked_line_that_another_hunk_leaves_last_composes() {
    let first = "@@ -1,1 +1,1 @@\n-a\n+x\n\\ No newline at end of file\n";
    let second = "@@ -2,1 +2,0 @@\n-b\n";
    let both = "@@ -1,1 +1,1 @@\n-a\n+x\n\\ No newline at end of file\n@@ -2,1 +2,0 @@\n-b\n";
    let mid = apply_patch("a\nb\n", first).unwrap();
    assert_eq!(mid, "x\nb\n");
    assert_eq!(apply_patch(&mid, second), Ok("x\n".to_string()));
    assert_eq!(apply_patch("a\nb\n", both), Ok("x\n".to_string()));
}

#[test]
fn an_empty_line_cannot_lose_its_line_feed() {
    let diff = "@@ -1,1 +1,2 @@\n a\n+\n\\ No newline at end of file\n";
    assert_eq!(apply_patch("a\n", diff), Ok("a\n\n".to_string()));
}

#[test]
fn appending_to_a_text_without_final_line_feed_composes() {
    let first = "@@ -1,1 +1,2 @@\n a\n+b\n";
    let both = "@@ -1,1 +1,2 @@\n a\n+b\n@@ -2,0 +3,1 @@\n+c\n";
    let mid = apply_patch("a", first).unwrap();
    assert_eq!(mid, "a\nb\n");
    assert_eq!(apply_patch(&mid, "@@ -3,0 +3,1 @@\n+c\n"), Ok("a\nb\nc\n".to_string()));
    assert_eq!(apply_patch("a", both), Ok("a\nb\nc\n".to_string()));
}

#[test]
fn one_hunk_replaces_its_lines_and_keeps_the_rest() {
    let original = "one\r\ntwo\nthree\nfour\r\nfive";
    let diff = "@@ -2,3 +2,2 @@\n two\n-three\n-four\r\n+3\n";
    assert_eq!(apply_patch(original, diff), Ok("one\r\ntwo\n3\nfive".to_string()));
    let diff = "@@ -5,1 +5,2 @@\n-five\n\\ No newline at end of file\n+5\n+6\n\\ No newline at end of file\n";
    assert_eq!(apply_patch(original, diff), Ok("one\r\ntwo\nthree\nfour\r\n5\n6".to_string()));
    let diff = "@@ -1,0 +1,1 @@\n+zero\n";
    assert_eq!(
        apply_patch(original, diff),
        Ok("zero\none\r\ntwo\nthree\nfour\r\nfive".to_string())
    );
}
