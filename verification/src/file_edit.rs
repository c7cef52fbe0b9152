//! The file editor: reading, writing, searching and patching one file.
//!
//! Nothing here touches a file. The caller reads the file and hands its
//! content in; what comes back says what to answer, or what to write once
//! the human has agreed.

use vstd::prelude::*;
use crate::patch::{apply_patch, patch_outcome};
use crate::pattern::{
    compile, find_all, found_view, regex_compile_error, regex_matches, regex_replace_all,
    replace_all, Found,
};
use crate::text::{
    decimal, join, join_strings, option_str, option_text, push_decimal, push_text, text_eq, texts,
};
use crate::sandbox::{beneath_root, outside_message, outside_text, stays_beneath};
use crate::tools::text_or;

verus! {

/// What the model is told when the human refuses a change.
pub const CANCELLATION_MESSAGE: &'static str =
    "User has cancelled this operation because it is against their wishes. Do not attempt any alternative approaches or modifications. Wait for further instructions.";

/// What reading the file gave.
pub enum FileRead {
    /// The content of the file.
    Content(String),
    /// The reason why the file could not be read.
    Failure(String),
}

/// A change to a file that is ready to be made.
pub struct Change {
    /// The content that the file has now; empty if it could not be read.
    pub old_content: String,
    /// The content that the file is to have.
    pub new_content: String,
    /// What the change is, in words that go before the name of the file.
    pub operation: String,
    /// The answer once the change is made.
    pub done: String,
}

/// Where an operation of the file editor stands.
pub enum EditStep {
    /// It is over, with this answer. `rejected` says that the human refused
    /// the change.
    Done { text: String, rejected: bool },
    /// The human is to be asked whether the change may be made.
    Confirm(Change),
    /// The change is to be written to the file.
    Write(Change),
}

/// `Change` as a mathematical value.
pub struct ChangeView {
    pub old_content: Seq<char>,
    pub new_content: Seq<char>,
    pub operation: Seq<char>,
    pub done: Seq<char>,
}

/// `EditStep` as a mathematical value.
pub enum EditStepView {
    Done { text: Seq<char>, rejected: bool },
    Confirm(ChangeView),
    Write(ChangeView),
}

impl View for Change {
    type V = ChangeView;

    open spec fn view(&self) -> ChangeView {
        ChangeView {
            old_content: self.old_content@,
            new_content: self.new_content@,
            operation: self.operation@,
            done: self.done@,
        }
    }
}

impl View for EditStep {
    type V = EditStepView;

    open spec fn view(&self) -> EditStepView {
        match *self {
            EditStep::Done { text, rejected } => EditStepView::Done { text: text@, rejected },
            EditStep::Confirm(change) => EditStepView::Confirm(change@),
            EditStep::Write(change) => EditStepView::Write(change@),
        }
    }
}

/// An answer that ends the operation without a refusal.
pub open spec fn answer(text: Seq<char>) -> EditStepView {
    EditStepView::Done { text, rejected: false }
}

/// A change that is written at once if the human need not be asked, and put
/// before the human otherwise.
pub open spec fn propose(change: ChangeView, skip_confirmation: bool) -> EditStepView {
    if skip_confirmation {
        EditStepView::Write(change)
    } else {
        EditStepView::Confirm(change)
    }
}

/// The answer when the file cannot be read.
pub open spec fn read_error(filename: Seq<char>, why: Seq<char>) -> Seq<char> {
    "Error reading file '"@ + filename + "': "@ + why
}

/// The answer when the file cannot be written.
pub open spec fn write_error(filename: Seq<char>, why: Seq<char>) -> Seq<char> {
    "Error writing to '"@ + filename + "': "@ + why
}

/// The answer when the pattern is not a regular expression.
pub open spec fn pattern_error(pattern: Seq<char>, why: Seq<char>) -> Seq<char> {
    "Error compiling regex pattern '"@ + pattern + "': "@ + why
}

/// Reading: the content of the file.
pub open spec fn read_step(filename: Seq<char>, file: FileRead) -> EditStepView {
    match file {
        FileRead::Content(content) => answer("File contents:\n"@ + content@),
        FileRead::Failure(why) => answer(read_error(filename, why@)),
    }
}

/// Writing: the file gets the data as its content. A file that cannot be
/// read counts as empty.
pub open spec fn write_step(
    filename: Seq<char>,
    data: Option<Seq<char>>,
    skip_confirmation: bool,
    file: FileRead,
) -> EditStepView {
    propose(
        ChangeView {
            old_content: match file {
                FileRead::Content(content) => content@,
                FileRead::Failure(_) => Seq::empty(),
            },
            new_content: text_or(data, Seq::empty()),
            operation: "writing to"@,
            done: "Successfully wrote to '"@ + filename + "'"@,
        },
        skip_confirmation,
    )
}

/// The line that lists one match.
pub open spec fn match_line(found: (Seq<char>, int)) -> Seq<char> {
    " - "@ + found.0 + " (at position "@ + decimal(found.1 as nat) + ")"@
}

/// The answer that lists the matches of a search.
pub open spec fn matches_text(
    pattern: Seq<char>,
    filename: Seq<char>,
    found: Seq<(Seq<char>, int)>,
) -> Seq<char> {
    if found.len() == 0 {
        "No matches found for pattern '"@ + pattern + "' in '"@ + filename + "'"@
    } else {
        "Found "@ + decimal(found.len()) + " matches for pattern '"@ + pattern + "' in '"@
            + filename + "':\n"@ + join(Seq::new(found.len(), |i: int| match_line(found[i])), "\n"@)
    }
}

/// Searching: the matches of the pattern in the file.
pub open spec fn search_step(filename: Seq<char>, data: Option<Seq<char>>, file: FileRead) -> EditStepView {
    match data {
        None => answer("Error: 'data' parameter with regex pattern is required for search"@),
        Some(pattern) => match regex_compile_error(pattern) {
            Some(why) => answer(pattern_error(pattern, why)),
            None => match file {
                FileRead::Failure(why) => answer(read_error(filename, why@)),
                FileRead::Content(content) => answer(
                    matches_text(pattern, filename, regex_matches(pattern, content@)),
                ),
            },
        },
    }
}

/// Searching and replacing: every match of the pattern in the file gives
/// way to the replacement.
pub open spec fn replace_step(
    filename: Seq<char>,
    data: Option<Seq<char>>,
    replacement: Option<Seq<char>>,
    skip_confirmation: bool,
    file: FileRead,
) -> EditStepView {
    match data {
        None => answer(
            "Error: 'data' parameter with regex pattern is required for search_and_replace"@,
        ),
        Some(pattern) => match replacement {
            None => answer("Error: 'replacement' parameter is required for search_and_replace"@),
            Some(with) => match regex_compile_error(pattern) {
                Some(why) => answer(pattern_error(pattern, why)),
                None => match file {
                    FileRead::Failure(why) => answer(read_error(filename, why@)),
                    FileRead::Content(content) => propose(
                        ChangeView {
                            old_content: content@,
                            new_content: regex_replace_all(pattern, content@, with),
                            operation: "search and replace in"@,
                            done: "Successfully replaced pattern '"@ + pattern + "' with '"@ + with
                                + "' in '"@ + filename + "'"@,
                        },
                        skip_confirmation,
                    ),
                },
            },
        },
    }
}

/// Patching: the diff is applied to the file. A diff that does not apply
/// changes nothing.
pub open spec fn diff_step(
    filename: Seq<char>,
    data: Option<Seq<char>>,
    skip_confirmation: bool,
    file: FileRead,
) -> EditStepView {
    match data {
        None => answer("Error: 'data' parameter with diff content is required for apply_diff"@),
        Some(diff) => match file {
            FileRead::Failure(why) => answer(read_error(filename, why@)),
            FileRead::Content(content) => match patch_outcome(content@, diff) {
                Err(why) => answer("Error parsing or applying diff: "@ + why),
                Ok(new_content) => propose(
                    ChangeView {
                        old_content: content@,
                        new_content,
                        operation: "applying diff to"@,
                        done: "Successfully applied diff to '"@ + filename + "'"@,
                    },
                    skip_confirmation,
                ),
            },
        },
    }
}

/// What the file editor does for a sub-command, given what reading the file
/// gave. A file name that does not stay beneath the confinement root is
/// answered with an error, whatever the sub-command.
pub open spec fn edit_step(
    subcommand: Seq<char>,
    filename: Seq<char>,
    data: Option<Seq<char>>,
    replacement: Option<Seq<char>>,
    skip_confirmation: bool,
    file: FileRead,
) -> EditStepView {
    if !stays_beneath(filename) {
        answer("Error: "@ + outside_text(filename))
    } else if subcommand == "read"@ {
        read_step(filename, file)
    } else if subcommand == "write"@ {
        write_step(filename, data, skip_confirmation, file)
    } else if subcommand == "search"@ {
        search_step(filename, data, file)
    } else if subcommand == "search_and_replace"@ {
        replace_step(filename, data, replacement, skip_confirmation, file)
    } else if subcommand == "apply_diff"@ {
        diff_step(filename, data, skip_confirmation, file)
    } else {
        answer("Error: Unknown subcommand '"@ + subcommand + "'"@)
    }
}

fn done(text: String) -> (step: EditStep)
    ensures
        step@ == answer(text@),
{
    EditStep::Done { text, rejected: false }
}

fn literal(text: &str) -> (step: EditStep)
    ensures
        step@ == answer(text@),
{
    EditStep::Done { text: text.to_owned(), rejected: false }
}

fn proposal(change: Change, skip_confirmation: bool) -> (step: EditStep)
    ensures
        step@ == propose(change@, skip_confirmation),
{
    if skip_confirmation {
        EditStep::Write(change)
    } else {
        EditStep::Confirm(change)
    }
}

fn quoted(before: &str, a: &str, after: &str) -> (s: String)
    ensures
        s@ == before@ + a@ + after@,
{
    let mut s = String::new();
    push_text(&mut s, before);
    push_text(&mut s, a);
    push_text(&mut s, after);
    s
}

fn read_failed(filename: &str, why: &str) -> (s: String)
    ensures
        s@ == read_error(filename@, why@),
{
    let mut s = quoted("Error reading file '", filename, "': ");
    push_text(&mut s, why);
    s
}

fn pattern_failed(pattern: &str, why: &str) -> (s: String)
    ensures
        s@ == pattern_error(pattern@, why@),
{
    let mut s = quoted("Error compiling regex pattern '", pattern, "': ");
    push_text(&mut s, why);
    s
}

fn handle_read(filename: &str, file: &FileRead) -> (step: EditStep)
    ensures
        step@ == read_step(filename@, *file),
{
    match file {
        FileRead::Content(content) => {
            let mut s = String::new();
            push_text(&mut s, "File contents:\n");
            push_text(&mut s, content.as_str());
            done(s)
        },
        FileRead::Failure(why) => done(read_failed(filename, why.as_str())),
    }
}

fn handle_write(filename: &str, data: Option<&str>, skip_confirmation: bool, file: &FileRead) -> (step:
    EditStep)
    ensures
        step@ == write_step(filename@, option_str(data), skip_confirmation, *file),
{
    let new_content = match data {
        Some(d) => d.to_owned(),
        None => String::new(),
    };
    let old_content = match file {
        FileRead::Content(content) => content.clone(),
        FileRead::Failure(_) => String::new(),
    };
    proposal(
        Change {
            old_content,
            new_content,
            operation: "writing to".to_owned(),
            done: quoted("Successfully wrote to '", filename, "'"),
        },
        skip_confirmation,
    )
}

fn list_matches(pattern: &str, filename: &str, found: &Vec<Found>) -> (s: String)
    ensures
        s@ == matches_text(pattern@, filename@, found_view(found@)),
{
    let mut s = String::new();
    if found.len() == 0 {
        push_text(&mut s, "No matches found for pattern '");
        push_text(&mut s, pattern);
        push_text(&mut s, "' in '");
        push_text(&mut s, filename);
        push_text(&mut s, "'");
        return s;
    }
    let ghost all = found_view(found@);
    let ghost wanted = Seq::new(all.len(), |i: int| match_line(all[i]));
    let mut lines: Vec<String> = Vec::new();
    let mut i: usize = 0;
    while i < found.len()
        invariant
            i <= found.len(),
            all == found_view(found@),
            wanted == Seq::new(all.len(), |i: int| match_line(all[i])),
            lines@.len() == i,
            texts(lines@) == wanted.take(i as int),
        decreases found.len() - i,
    {
        let mut line = String::new();
        push_text(&mut line, " - ");
        push_text(&mut line, found[i].text.as_str());
        push_text(&mut line, " (at position ");
        push_decimal(&mut line, found[i].start as u128);
        push_text(&mut line, ")");
        proof {
            assert(all[i as int] == (found@[i as int].text@, found@[i as int].start as int));
            assert(line@ =~= match_line(all[i as int]));
            let grown = texts(lines@.push(line));
            assert forall|j: int| 0 <= j < i + 1 implies grown[j] == wanted.take(i + 1)[j] by {
                if j < i {
                    assert(texts(lines@)[j] == wanted.take(i as int)[j]);
                }
            }
            assert(grown =~= wanted.take(i + 1));
        }
        lines.push(line);
        i += 1;
    }
    assert(wanted.take(wanted.len() as int) =~= wanted);
    push_text(&mut s, "Found ");
    push_decimal(&mut s, found.len() as u128);
    push_text(&mut s, " matches for pattern '");
    push_text(&mut s, pattern);
    push_text(&mut s, "' in '");
    push_text(&mut s, filename);
    push_text(&mut s, "':\n");
    let listed = join_strings(&lines, "\n");
    push_text(&mut s, listed.as_str());
    s
}

fn handle_search(filename: &str, data: Option<&str>, file: &FileRead) -> (step: EditStep)
    ensures
        step@ == search_step(filename@, option_str(data), *file),
{
    let pattern = match data {
        Some(p) => p,
        None => {
            return literal("Error: 'data' parameter with regex pattern is required for search");
        },
    };
    let compiled = match compile(pattern) {
        Ok(compiled) => compiled,
        Err(why) => { return done(pattern_failed(pattern, why.as_str())); },
    };
    match file {
        FileRead::Failure(why) => done(read_failed(filename, why.as_str())),
        FileRead::Content(content) => {
            let found = find_all(&compiled, content.as_str());
            done(list_matches(pattern, filename, &found))
        },
    }
}

fn handle_search_and_replace(
    filename: &str,
    data: Option<&str>,
    replacement: Option<&str>,
    skip_confirmation: bool,
    file: &FileRead,
) -> (step: EditStep)
    ensures
        step@ == replace_step(
            filename@,
            option_str(data),
            option_str(replacement),
            skip_confirmation,
            *file,
        ),
{
    let pattern = match data {
        Some(p) => p,
        None => {
            return literal(
                "Error: 'data' parameter with regex pattern is required for search_and_replace",
            );
        },
    };
    let with = match replacement {
        Some(r) => r,
        None => {
            return literal("Error: 'replacement' parameter is required for search_and_replace");
        },
    };
    let compiled = match compile(pattern) {
        Ok(compiled) => compiled,
        Err(why) => { return done(pattern_failed(pattern, why.as_str())); },
    };
    match file {
        FileRead::Failure(why) => done(read_failed(filename, why.as_str())),
        FileRead::Content(content) => {
            let new_content = replace_all(&compiled, content.as_str(), with);
            let mut message = quoted("Successfully replaced pattern '", pattern, "' with '");
            push_text(&mut message, with);
            push_text(&mut message, "' in '");
            push_text(&mut message, filename);
            push_text(&mut message, "'");
            proposal(
                Change {
                    old_content: content.clone(),
                    new_content,
                    operation: "search and replace in".to_owned(),
                    done: message,
                },
                skip_confirmation,
            )
        },
    }
}

fn handle_apply_diff(filename: &str, data: Option<&str>, skip_confirmation: bool, file: &FileRead) -> (step:
    EditStep)
    ensures
        step@ == diff_step(filename@, option_str(data), skip_confirmation, *file),
{
    let diff = match data {
        Some(d) => d,
        None => {
            return literal("Error: 'data' parameter with diff content is required for apply_diff");
        },
    };
    match file {
        FileRead::Failure(why) => done(read_failed(filename, why.as_str())),
        FileRead::Content(content) => match apply_patch(content.as_str(), diff) {
            Ok(new_content) => proposal(
                Change {
                    old_content: content.clone(),
                    new_content,
                    operation: "applying diff to".to_owned(),
                    done: quoted("Successfully applied diff to '", filename, "'"),
                },
                skip_confirmation,
            ),
            Err(why) => {
                let mut s = String::new();
                push_text(&mut s, "Error parsing or applying diff: ");
                push_text(&mut s, why.as_str());
                done(s)
            },
        },
    }
}

/// Carries out a sub-command of the file editor as far as it goes without
/// touching the file: `file` is what reading the file gave.
///
/// The result is the answer, or the change that is to be made. A change is
/// to be written at once only if `skip_confirmation` is set; otherwise the
/// human is to be asked first.
pub fn file_editor(
    subcommand: &str,
    filename: &str,
    data: Option<&str>,
    replacement: Option<&str>,
    skip_confirmation: bool,
    file: &FileRead,
) -> (step: EditStep)
    ensures
        step@ == edit_step(
            subcommand@,
            filename@,
            option_str(data),
            option_str(replacement),
            skip_confirmation,
            *file,
        ),
{
    if !beneath_root(filename) {
        let mut s = String::new();
        push_text(&mut s, "Error: ");
        push_text(&mut s, outside_message(filename).as_str());
        done(s)
    } else if text_eq(subcommand, "read") {
        handle_read(filename, file)
    } else if text_eq(subcommand, "write") {
        handle_write(filename, data, skip_confirmation, file)
    } else if text_eq(subcommand, "search") {
        handle_search(filename, data, file)
    } else if text_eq(subcommand, "search_and_replace") {
        handle_search_and_replace(filename, data, replacement, skip_confirmation, file)
    } else if text_eq(subcommand, "apply_diff") {
        handle_apply_diff(filename, data, skip_confirmation, file)
    } else {
        done(quoted("Error: Unknown subcommand '", subcommand, "'"))
    }
}

/// Whether the data is a pattern that can be searched for.
pub open spec fn is_pattern(data: Option<Seq<char>>) -> bool {
    match data {
        Some(pattern) => regex_compile_error(pattern) is None,
        None => false,
    }
}

/// Whether the file editor has to know the file for a sub-command. It has
/// not where the answer is an error that stands whatever the file holds: a
/// file name outside the confinement root, an unknown sub-command, a
/// missing parameter, a pattern that is none.
pub open spec fn reads_file(
    subcommand: Seq<char>,
    filename: Seq<char>,
    data: Option<Seq<char>>,
    replacement: Option<Seq<char>>,
) -> bool {
    stays_beneath(filename) && if subcommand == "read"@ || subcommand == "write"@ {
        true
    } else if subcommand == "search"@ {
        is_pattern(data)
    } else if subcommand == "search_and_replace"@ {
        replacement is Some && is_pattern(data)
    } else if subcommand == "apply_diff"@ {
        data is Some
    } else {
        false
    }
}

fn can_search(data: Option<&str>) -> (b: bool)
    ensures
        b == is_pattern(option_str(data)),
{
    match data {
        Some(pattern) => compile(pattern).is_ok(),
        None => false,
    }
}

/// Decides whether the file is to be read before `file_editor` is called.
/// Where it is not, `file_editor` gives the same answer whatever it is
/// told of the file.
pub fn needs_file(subcommand: &str, filename: &str, data: Option<&str>, replacement: Option<&str>) -> (b:
    bool)
    ensures
        b == reads_file(subcommand@, filename@, option_str(data), option_str(replacement)),
{
    if !beneath_root(filename) {
        false
    } else if text_eq(subcommand, "read") || text_eq(subcommand, "write") {
        true
    } else if text_eq(subcommand, "search") {
        can_search(data)
    } else if text_eq(subcommand, "search_and_replace") {
        replacement.is_some() && can_search(data)
    } else if text_eq(subcommand, "apply_diff") {
        data.is_some()
    } else {
        false
    }
}

/// Where the file need not be read, the file editor answers without
/// regard to the file.
pub proof fn unread_file_is_not_regarded(
    subcommand: Seq<char>,
    filename: Seq<char>,
    data: Option<Seq<char>>,
    replacement: Option<Seq<char>>,
    skip_confirmation: bool,
    one: FileRead,
    other: FileRead,
)
    requires
        !reads_file(subcommand, filename, data, replacement),
    ensures
        edit_step(subcommand, filename, data, replacement, skip_confirmation, one) == edit_step(
            subcommand,
            filename,
            data,
            replacement,
            skip_confirmation,
            other,
        ),
        edit_step(subcommand, filename, data, replacement, skip_confirmation, one) is Done,
{
}

/// What follows the human's decision on a change: an approved change is to
/// be written; a refused one is not, and the operation ends with the
/// cancellation message and counts as rejected.
pub open spec fn confirmed(change: ChangeView, approved: bool) -> EditStepView {
    if approved {
        EditStepView::Write(change)
    } else {
        EditStepView::Done { text: CANCELLATION_MESSAGE@, rejected: true }
    }
}

/// Takes the human's decision on a change.
pub fn confirm_and_apply_change(change: Change, approved: bool) -> (step: EditStep)
    ensures
        step@ == confirmed(change@, approved),
{
    if approved {
        EditStep::Write(change)
    } else {
        EditStep::Done { text: CANCELLATION_MESSAGE.to_owned(), rejected: true }
    }
}

/// What follows the writing of a change: the answer that the change
/// promised, or the reason why the file could not be written.
pub open spec fn written(filename: Seq<char>, change: ChangeView, failure: Option<Seq<char>>) -> EditStepView {
    match failure {
        None => answer(change.done),
        Some(why) => answer(write_error(filename, why)),
    }
}

/// Takes the result of writing a change: `failure` is the reason why the
/// file could not be written, if it could not.
pub fn change_written(filename: &str, change: Change, failure: Option<String>) -> (step: EditStep)
    ensures
        step@ == written(filename@, change@, option_text(failure)),
{
    match failure {
        None => done(change.done),
        Some(why) => {
            let mut s = quoted("Error writing to '", filename, "': ");
            push_text(&mut s, why.as_str());
            done(s)
        },
    }
}

/// No file outside the confinement root is changed: whenever the file
/// editor asks for a change to be confirmed or written, the name of the
/// file stays beneath the root.
pub proof fn changes_stay_beneath_root(
    subcommand: Seq<char>,
    filename: Seq<char>,
    data: Option<Seq<char>>,
    replacement: Option<Seq<char>>,
    skip_confirmation: bool,
    file: FileRead,
)
    ensures
        !(edit_step(subcommand, filename, data, replacement, skip_confirmation, file) is Done)
            ==> stays_beneath(filename),
        !stays_beneath(filename) ==> edit_step(
            subcommand,
            filename,
            data,
            replacement,
            skip_confirmation,
            file,
        ) == answer("Error: "@ + outside_text(filename)),
{
}

/// A refused change is never written, and its answer is none that reports
/// a change as made.
pub proof fn refused_change_is_not_made(change: ChangeView, filename: Seq<char>, pattern: Seq<char>, with: Seq<char>)
    ensures
        confirmed(change, false) == (EditStepView::Done {
            text: CANCELLATION_MESSAGE@,
            rejected: true,
        }),
        !(confirmed(change, false) is Write),
        CANCELLATION_MESSAGE@ != "Successfully wrote to '"@ + filename + "'"@,
        CANCELLATION_MESSAGE@ != "Successfully applied diff to '"@ + filename + "'"@,
        CANCELLATION_MESSAGE@ != "Successfully replaced pattern '"@ + pattern + "' with '"@ + with
            + "' in '"@ + filename + "'"@,
{
    reveal_strlit(
        "User has cancelled this operation because it is against their wishes. Do not attempt any alternative approaches or modifications. Wait for further instructions.",
    );
    reveal_strlit("Successfully wrote to '");
    reveal_strlit("Successfully applied diff to '");
    reveal_strlit("Successfully replaced pattern '");
    assert(CANCELLATION_MESSAGE@[0] == 'U');
    assert(("Successfully wrote to '"@ + filename + "'"@)[0] == 'S');
    assert(("Successfully applied diff to '"@ + filename + "'"@)[0] == 'S');
    assert(("Successfully replaced pattern '"@ + pattern + "' with '"@ + with + "' in '"@
        + filename + "'"@)[0] == 'S');
}

/// A stretch of lines of a comparison of two texts.
pub enum Diff {
    /// Lines that both texts have.
    Same(String),
    /// Lines that only the new text has.
    Add(String),
    /// Lines that only the old text has.
    Rem(String),
}

/// A stretch as plain values: 0 for lines that both texts have, 1 for
/// added lines, 2 for removed lines, and the lines.
pub open spec fn diff_view(d: Diff) -> (int, Seq<char>) {
    match d {
        Diff::Same(s) => (0, s@),
        Diff::Add(s) => (1, s@),
        Diff::Rem(s) => (2, s@),
    }
}

/// The stretches of a comparison as plain values.
pub open spec fn diffs_view(v: Seq<Diff>) -> Seq<(int, Seq<char>)> {
    Seq::new(v.len(), |i: int| diff_view(v[i]))
}

/// The comparison of two texts line by line, as `difference::Changeset`
/// makes it: stretches of lines in the order of the old text, each marked
/// as common, added or removed.
pub uninterp spec fn line_changes(old: Seq<char>, new: Seq<char>) -> Seq<(int, Seq<char>)>;

/// Whether two texts are small enough to be compared: the table that the
/// comparison fills, one entry for each pair of lines, must fit in memory
/// that can be addressed.
pub open spec fn comparable(old: Seq<char>, new: Seq<char>) -> bool {
    (old.len() + 1) * (new.len() + 1) * 16 <= usize::MAX
}

/// `difference::Changeset::new` with the line feed as the split. Believed:
/// the result lists the stretches of the comparison in their order. The
/// texts must be small enough for the table of the comparison.
#[verifier::external_body]
pub(crate) fn changeset(old: &str, new: &str) -> (r: Vec<Diff>)
    requires
        comparable(old@, new@),
    ensures
        diffs_view(r@) == line_changes(old@, new@),
{
    let stretch = |d: difference::Difference| match d {
        difference::Difference::Same(s) => Diff::Same(s),
        difference::Difference::Add(s) => Diff::Add(s),
        difference::Difference::Rem(s) => Diff::Rem(s),
    };
    difference::Changeset::new(old, new, "\n").diffs.into_iter().map(stretch).collect()
}

/// The line that shows a stretch: common lines dimmed after a blank,
/// removed lines red after a minus, added lines green after a plus.
pub open spec fn stretch_line(d: (int, Seq<char>)) -> Seq<char> {
    if d.0 == 0 {
        "\x1b[2m "@ + d.1 + "\x1b[0m"@
    } else if d.0 == 1 {
        "\x1b[92m+"@ + d.1 + "\x1b[0m"@
    } else {
        "\x1b[91m-"@ + d.1 + "\x1b[0m"@
    }
}

/// What is shown to the human before a change is made: a heading, and the
/// comparison of the old content with the new.
pub open spec fn preview(change: ChangeView, filename: Seq<char>) -> Seq<Seq<char>> {
    let changes = line_changes(change.old_content, change.new_content);
    seq!["Diff preview for "@ + change.operation + " in '"@ + filename + "':"@] + Seq::new(
        changes.len(),
        |i: int| stretch_line(changes[i]),
    )
}

/// Whether a change is small enough to be shown.
pub fn can_preview(change: &Change) -> (b: bool)
    ensures
        b == comparable(change.old_content@, change.new_content@),
{
    let a = change.old_content.as_str().unicode_len();
    let b = change.new_content.as_str().unicode_len();
    let rows = match a.checked_add(1) {
        Some(n) => n,
        None => {
            assert((a + 1) * (b + 1) * 16 > usize::MAX) by (nonlinear_arith)
                requires
                    a + 1 > usize::MAX,
                    b >= 0,
            ;
            return false;
        },
    };
    let columns = match b.checked_add(1) {
        Some(n) => n,
        None => {
            assert((a + 1) * (b + 1) * 16 > usize::MAX) by (nonlinear_arith)
                requires
                    b + 1 > usize::MAX,
                    a >= 0,
            ;
            return false;
        },
    };
    let cells = match rows.checked_mul(columns) {
        Some(n) => n,
        None => {
            assert(rows * columns * 16 > usize::MAX) by (nonlinear_arith)
                requires
                    rows * columns > usize::MAX,
            ;
            return false;
        },
    };
    cells.checked_mul(16).is_some()
}

/// Makes what is shown to the human before a change is made. The change
/// must be small enough to be compared.
pub fn confirm_change(change: &Change, filename: &str) -> (lines: Vec<String>)
    requires
        comparable(change.old_content@, change.new_content@),
    ensures
        texts(lines@) == preview(change@, filename@),
{
    let diffs = changeset(change.old_content.as_str(), change.new_content.as_str());
    let ghost changes = line_changes(change.old_content@, change.new_content@);
    let ghost wanted = preview(change@, filename@);
    let mut lines: Vec<String> = Vec::new();
    let mut heading = quoted("Diff preview for ", change.operation.as_str(), " in '");
    push_text(&mut heading, filename);
    push_text(&mut heading, "':");
    lines.push(heading);
    let mut i: usize = 0;
    while i < diffs.len()
        invariant
            i <= diffs.len(),
            diffs_view(diffs@) == changes,
            changes == line_changes(change.old_content@, change.new_content@),
            wanted == preview(change@, filename@),
            lines@.len() == i + 1,
            forall|j: int| 0 <= j < i + 1 ==> (#[trigger] lines@[j])@ == wanted[j],
        decreases diffs.len() - i,
    {
        assert(changes[i as int] == diff_view(diffs@[i as int]));
        let line = match &diffs[i] {
            Diff::Same(s) => quoted("\x1b[2m ", s.as_str(), "\x1b[0m"),
            Diff::Add(s) => quoted("\x1b[92m+", s.as_str(), "\x1b[0m"),
            Diff::Rem(s) => quoted("\x1b[91m-", s.as_str(), "\x1b[0m"),
        };
        assert(line@ == stretch_line(changes[i as int]));
        assert(wanted[i + 1] == stretch_line(changes[i as int]));
        lines.push(line);
        i += 1;
    }
    assert(texts(lines@) =~= wanted);
    lines
}

} // verus!
