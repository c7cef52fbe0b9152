//! Small helpers that several parts of the assistant share.

use vstd::prelude::*;
use vstd::string::StringSliceAdditionalSpecFns;
use vstd::utf8::{decode_utf8, is_char_boundary};
use crate::orchestrator::Confirmation;
use crate::text::{lowercase, option_text, push_range, push_text, starts_with, text_eq, to_chars, to_lowercase, trim, trimmed, has_prefix};

verus! {

/// `s` cut to at most `max_len` bytes, with three dots after a cut.
pub open spec fn truncated(s: &str, max_len: usize) -> Seq<char> {
    if s.spec_bytes().len() > max_len {
        decode_utf8(s.spec_bytes().subrange(0, max_len as int)) + "..."@
    } else {
        s@
    }
}

/// Shortens a text for a log line: a text of more than `max_len` bytes is cut
/// after `max_len` bytes and marked with three dots. The cut must not fall
/// inside a character.
pub fn truncate_str(s: &str, max_len: usize) -> (r: String)
    requires
        s.spec_bytes().len() > max_len ==> is_char_boundary(s.spec_bytes(), max_len as int),
    ensures
        r@ == truncated(s, max_len),
{
    broadcast use {vstd::utf8::encode_utf8_decode_utf8, vstd::utf8::encode_utf8_valid_utf8};

    if s.as_bytes().len() > max_len {
        let (head, _) = s.split_at(max_len);
        assert(decode_utf8(head.spec_bytes()) == head@);
        let mut r = String::new();
        push_text(&mut r, head);
        push_text(&mut r, "...");
        assert(r@ =~= head@ + "..."@);
        r
    } else {
        s.to_owned()
    }
}

/// What the human's answer to a yes-or-no question amounts to: consent
/// only if the answer is yes; no answer is a refusal.
pub fn confirm(answer: Option<bool>) -> (decision: Confirmation)
    ensures
        decision == if answer == Some(true) {
            Confirmation::Approve
        } else {
            Confirmation::Reject
        },
{
    match answer {
        Some(true) => Confirmation::Approve,
        _ => Confirmation::Reject,
    }
}

/// The decision that an answer to a yes, no or always question stands for,
/// if it stands for one. Case and surrounding white space do not count.
pub open spec fn decision_of(input: Seq<char>) -> Option<Confirmation> {
    let word = lowercase(trim(input));
    if word == "y"@ || word == "yes"@ {
        Some(Confirmation::Approve)
    } else if word == "n"@ || word == "no"@ {
        Some(Confirmation::Reject)
    } else if word == "a"@ || word == "always"@ {
        Some(Confirmation::ApproveForSession)
    } else {
        None
    }
}

/// Reads the human's answer to a yes, no or always question. An answer
/// that is none of these gives `None`, and the question is to be asked
/// again.
pub fn confirm_with_always(input: &str) -> (decision: Option<Confirmation>)
    ensures
        decision == decision_of(input@),
{
    let word = to_lowercase(trimmed(input).as_str());
    let w = word.as_str();
    if text_eq(w, "y") || text_eq(w, "yes") {
        Some(Confirmation::Approve)
    } else if text_eq(w, "n") || text_eq(w, "no") {
        Some(Confirmation::Reject)
    } else if text_eq(w, "a") || text_eq(w, "always") {
        Some(Confirmation::ApproveForSession)
    } else {
        None
    }
}

/// The line that goes to the debug log: the time in brackets, then the
/// message. Nothing is logged unless debugging is on.
pub fn log_to_file(debug: bool, timestamp: &str, msg: &str) -> (line: Option<String>)
    ensures
        option_text(line) == if debug {
            Some("["@ + timestamp@ + "] "@ + msg@)
        } else {
            None::<Seq<char>>
        },
{
    if debug {
        let mut line = String::new();
        push_text(&mut line, "[");
        push_text(&mut line, timestamp);
        push_text(&mut line, "] ");
        push_text(&mut line, msg);
        Some(line)
    } else {
        None
    }
}

/// The confinement root as it is shown: the resolved working directory, or
/// `.` if it could not be resolved. On Windows the prefix that marks a
/// verbatim path is left out.
pub open spec fn sandbox_root(resolved: Option<Seq<char>>, windows: bool) -> Seq<char> {
    match resolved {
        None => "."@,
        Some(path) => if windows && starts_with(path, "\\\\?\\"@) {
            path.skip(4)
        } else {
            path
        },
    }
}

/// Names the confinement root.
pub fn get_sandbox_root(resolved: Option<&str>, windows: bool) -> (root: String)
    ensures
        root@ == sandbox_root(crate::text::option_str(resolved), windows),
{
    match resolved {
        None => ".".to_owned(),
        Some(path) => {
            let v = to_chars(path);
            let mark = to_chars("\\\\?\\");
            proof {
                reveal_strlit("\\\\?\\");
            }
            if windows && has_prefix(&v, &mark) {
                let mut root = String::new();
                push_range(&mut root, &v, 4, v.len());
                assert(v@.subrange(4, v@.len() as int) =~= v@.skip(4));
                root
            } else {
                path.to_owned()
            }
        },
    }
}

} // verus!
