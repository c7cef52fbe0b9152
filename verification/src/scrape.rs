//! Reading a web page: what is reported for each way the fetch can end,
//! and whether the text of the page is passed on whole.

use vstd::prelude::*;
use vstd::utf8::encode_utf8;
use crate::text::{push_text, text_eq};

verus! {

/// How fetching a page ended.
pub enum Fetched {
    /// The page came with status 200, and this is its readable text.
    Page(String),
    /// The page came with another status: its code, and the status in
    /// words.
    Status(u16, String),
    /// The request took too long.
    TimedOut,
    /// No connection could be made.
    Unreachable,
    /// The request failed otherwise, for this reason.
    Failed(String),
    /// The page came, but its content could not be read, for this reason.
    Unreadable(String),
}

/// What is reported for a status other than 200.
pub open spec fn status_text(code: u16, shown: Seq<char>) -> Seq<char> {
    if code == 404 {
        "Skipped: 404 Not Found"@
    } else if code == 403 {
        "Skipped: 403 Forbidden"@
    } else if code == 500 {
        "Skipped: 500 Internal Server Error"@
    } else {
        "Skipped: HTTP status "@ + shown
    }
}

/// What a fetch gives to go on with: the text of the page, or a text that
/// says why the page was skipped; an error where the fetch or the reading
/// failed.
pub open spec fn fetched_text(url: Seq<char>, fetched: Fetched) -> Result<Seq<char>, Seq<char>> {
    match fetched {
        Fetched::Page(text) => if text@.len() == 0 {
            Ok("No readable content found on this page."@)
        } else {
            Ok(text@)
        },
        Fetched::Status(code, shown) => Ok(status_text(code, shown@)),
        Fetched::TimedOut => Ok("Skipped: Request timed out"@),
        Fetched::Unreachable => Ok("Skipped: Connection error"@),
        Fetched::Failed(why) => Err("Error fetching "@ + url + ": "@ + why@),
        Fetched::Unreadable(why) => Err("Error reading content: "@ + why@),
    }
}

/// Words how a fetch ended.
pub fn scrape_result(url: &str, fetched: Fetched) -> (r: Result<String, String>)
    ensures
        match r {
            Ok(s) => fetched_text(url@, fetched) == Ok::<Seq<char>, Seq<char>>(s@),
            Err(e) => fetched_text(url@, fetched) == Err::<Seq<char>, Seq<char>>(e@),
        },
{
    match fetched {
        Fetched::Page(text) => {
            if text.as_str().is_empty() {
                Ok("No readable content found on this page.".to_owned())
            } else {
                Ok(text)
            }
        },
        Fetched::Status(code, shown) => {
            if code == 404 {
                Ok("Skipped: 404 Not Found".to_owned())
            } else if code == 403 {
                Ok("Skipped: 403 Forbidden".to_owned())
            } else if code == 500 {
                Ok("Skipped: 500 Internal Server Error".to_owned())
            } else {
                let mut s = String::new();
                push_text(&mut s, "Skipped: HTTP status ");
                push_text(&mut s, shown.as_str());
                Ok(s)
            }
        },
        Fetched::TimedOut => Ok("Skipped: Request timed out".to_owned()),
        Fetched::Unreachable => Ok("Skipped: Connection error".to_owned()),
        Fetched::Failed(why) => {
            let mut s = String::new();
            push_text(&mut s, "Error fetching ");
            push_text(&mut s, url);
            push_text(&mut s, ": ");
            push_text(&mut s, why.as_str());
            Err(s)
        },
        Fetched::Unreadable(why) => {
            let mut s = String::new();
            push_text(&mut s, "Error reading content: ");
            push_text(&mut s, why.as_str());
            Err(s)
        },
    }
}

/// The longest text, in bytes, that is passed on whole in any mode.
pub const WHOLE_LIMIT: usize = 1024;

/// Whether a text is to be summarized: it is, unless the whole text was
/// asked for or the text is short.
pub open spec fn wants_summary(mode: Seq<char>, text: Seq<char>) -> bool {
    mode != "full"@ && encode_utf8(text).len() > WHOLE_LIMIT
}

/// Decides whether a text is to be summarized.
pub fn needs_summary(mode: &str, text: &str) -> (b: bool)
    ensures
        b == wants_summary(mode@, text@),
{
    !text_eq(mode, "full") && text.as_bytes().len() > WHOLE_LIMIT
}

/// What is passed on of a page: the summary, if one was wanted and made
/// and is not empty, and the text itself otherwise.
pub fn scrape_url(mode: &str, text: String, summary: Option<String>) -> (r: String)
    ensures
        r@ == match summary {
            Some(s) => if wants_summary(mode@, text@) && s@.len() > 0 {
                s@
            } else {
                text@
            },
            None => text@,
        },
{
    if needs_summary(mode, text.as_str()) {
        match summary {
            Some(s) => if s.as_str().is_empty() {
                text
            } else {
                s
            },
            None => text,
        }
    } else {
        text
    }
}

} // verus!
