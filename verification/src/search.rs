//! Searching the web: what to ask, when to try again, and how the findings
//! are worded.

use vstd::prelude::*;
use vstd::utf8::encode_utf8;
use crate::text::{join, join_strings, option_str, push_text, text_eq, texts};

verus! {

/// One finding of a search.
pub struct SearchHit {
    pub title: String,
    pub url: String,
    pub content: String,
}

/// What the search service found.
pub struct SearchReply {
    /// The answer of the service, if it gave one.
    pub answer: Option<String>,
    /// The findings, best first.
    pub results: Vec<SearchHit>,
}

/// How many findings are asked for and listed.
pub const MAX_RESULTS: usize = 5;

/// How often a search is tried.
pub const ATTEMPTS: u32 = 3;

/// What is said when the search service has no key.
pub const NOT_CONFIGURED: &'static str =
    "Tavily Search API is not configured. Please set TAVILY_API_KEY in ~/.aicli.conf";

/// Whether a search can be made at all: the message that says why not, if
/// the service has no key.
pub fn search_unconfigured(api_key: &str) -> (r: Option<&'static str>)
    ensures
        r == if api_key@.len() == 0 {
            Some(NOT_CONFIGURED)
        } else {
            None
        },
{
    if api_key.is_empty() {
        Some(NOT_CONFIGURED)
    } else {
        None
    }
}

/// What to do before an attempt.
#[derive(Clone, Copy, Debug, PartialEq, Eq, Structural)]
pub enum Attempt {
    /// Try at once.
    Now,
    /// Wait this many seconds, then try.
    After(u64),
    /// Try no more.
    GiveUp,
}

/// The seconds to wait before attempt `attempt`, counted from zero: none
/// before the first, then one, then two.
pub open spec fn backoff(attempt: u32) -> Attempt {
    if attempt == 0 {
        Attempt::Now
    } else if attempt == 1 {
        Attempt::After(1)
    } else if attempt == 2 {
        Attempt::After(2)
    } else {
        Attempt::GiveUp
    }
}

/// Says what to do before an attempt. The wait doubles from one attempt to
/// the next, and after three attempts the search is given up.
pub fn next_attempt(attempt: u32) -> (r: Attempt)
    ensures
        r == backoff(attempt),
        attempt >= ATTEMPTS <==> r == Attempt::GiveUp,
{
    if attempt == 0 {
        Attempt::Now
    } else if attempt >= ATTEMPTS {
        Attempt::GiveUp
    } else {
        let mut wait: u64 = 1;
        let mut k: u32 = 1;
        while k < attempt
            invariant
                1 <= k <= attempt < ATTEMPTS,
                wait == k,
            decreases attempt - k,
        {
            wait = wait * 2;
            k += 1;
        }
        Attempt::After(wait)
    }
}

/// What is said when the last attempt has failed.
pub fn search_failed(why: &str) -> (s: String)
    ensures
        s@ == "Search failed after 3 attempts: "@ + why@,
{
    let mut s = String::new();
    push_text(&mut s, "Search failed after 3 attempts: ");
    push_text(&mut s, why);
    s
}

/// Where the answer of a search comes from.
pub enum AnswerSource {
    /// This text is the answer.
    Verbatim(String),
    /// The answer is this text cut down to three sentences.
    Summary(String),
}

/// `AnswerSource` as a mathematical value.
pub enum AnswerSourceView {
    Verbatim(Seq<char>),
    Summary(Seq<char>),
}

impl View for AnswerSource {
    type V = AnswerSourceView;

    open spec fn view(&self) -> AnswerSourceView {
        match *self {
            AnswerSource::Verbatim(text) => AnswerSourceView::Verbatim(text@),
            AnswerSource::Summary(text) => AnswerSourceView::Summary(text@),
        }
    }
}

/// The contents of the findings.
pub open spec fn hit_contents(results: Seq<SearchHit>) -> Seq<Seq<char>> {
    Seq::new(results.len(), |i: int| results[i].content@)
}

/// Where the answer comes from: the service's own answer, cut down if the
/// answer is to be basic and is longer than 200 bytes; without an answer of
/// the service, the contents of the findings cut down; without findings, a
/// text that says so.
pub open spec fn answer_source(answer_mode: Seq<char>, reply: SearchReply) -> AnswerSourceView {
    match reply.answer {
        Some(answer) => if answer_mode == "basic"@ && encode_utf8(answer@).len() > 200 {
            AnswerSourceView::Summary(answer@)
        } else {
            AnswerSourceView::Verbatim(answer@)
        },
        None => if reply.results@.len() > 0 {
            AnswerSourceView::Summary(join(hit_contents(reply.results@), "\n\n"@))
        } else {
            AnswerSourceView::Verbatim("No answer generated."@)
        },
    }
}

/// Decides where the answer of a search comes from.
pub fn search_answer(answer_mode: &str, reply: &SearchReply) -> (source: AnswerSource)
    ensures
        source@ == answer_source(answer_mode@, *reply),
{
    match &reply.answer {
        Some(answer) => {
            if text_eq(answer_mode, "basic") && answer.as_str().as_bytes().len() > 200 {
                AnswerSource::Summary(answer.clone())
            } else {
                AnswerSource::Verbatim(answer.clone())
            }
        },
        None => {
            if reply.results.len() > 0 {
                let mut contents: Vec<String> = Vec::new();
                let mut i: usize = 0;
                while i < reply.results.len()
                    invariant
                        i <= reply.results.len(),
                        contents@.len() == i,
                        forall|j: int|
                            0 <= j < i ==> (#[trigger] contents@[j])@ == reply.results@[j].content@,
                    decreases reply.results.len() - i,
                {
                    contents.push(reply.results[i].content.clone());
                    i += 1;
                }
                assert(texts(contents@) =~= hit_contents(reply.results@));
                AnswerSource::Summary(join_strings(&contents, "\n\n"))
            } else {
                AnswerSource::Verbatim("No answer generated.".to_owned())
            }
        },
    }
}

/// The line that lists a finding.
pub open spec fn hit_text(hit: SearchHit) -> Seq<char> {
    "- **"@ + hit.title@ + "**: "@ + hit.url@ + "\n  "@ + hit.content@ + "\n\n"@
}

/// The list of the first `n` findings.
pub open spec fn hits_text(results: Seq<SearchHit>, n: int) -> Seq<char>
    decreases n,
{
    if n <= 0 {
        Seq::empty()
    } else {
        hits_text(results, n - 1) + hit_text(results[n - 1])
    }
}

/// How many findings are listed.
pub open spec fn listed(results: Seq<SearchHit>) -> int {
    if results.len() < MAX_RESULTS {
        results.len() as int
    } else {
        MAX_RESULTS as int
    }
}

/// What a search reports: the answer, if one is given, and the list of the
/// findings, if it is asked for, each on a line of its own.
pub open spec fn search_text(answer: Option<Seq<char>>, include_results: bool, reply: SearchReply) -> Seq<
    char,
> {
    let first = match answer {
        Some(text) => seq![text],
        None => Seq::<Seq<char>>::empty(),
    };
    let second = if !include_results {
        Seq::<Seq<char>>::empty()
    } else if reply.results@.len() == 0 {
        seq!["No results found."@]
    } else {
        seq![hits_text(reply.results@, listed(reply.results@))]
    };
    join(first + second, "\n"@)
}

/// Words what a search found. `answer` is the answer as it is to be shown,
/// if one is to be shown.
pub fn search_online(answer: Option<&str>, include_results: bool, reply: &SearchReply) -> (s: String)
    ensures
        s@ == search_text(option_str(answer), include_results, *reply),
{
    let mut parts: Vec<String> = Vec::new();
    match answer {
        Some(text) => {
            parts.push(text.to_owned());
        },
        None => {},
    }
    let ghost first = texts(parts@);
    assert(first =~= match option_str(answer) {
        Some(text) => seq![text],
        None => Seq::<Seq<char>>::empty(),
    });
    if include_results {
        if reply.results.len() == 0 {
            parts.push("No results found.".to_owned());
            assert(texts(parts@) =~= first + seq!["No results found."@]);
        } else {
            let count = if reply.results.len() < MAX_RESULTS {
                reply.results.len()
            } else {
                MAX_RESULTS
            };
            let mut list = String::new();
            let mut i: usize = 0;
            while i < count
                invariant
                    i <= count <= reply.results.len(),
                    list@ == hits_text(reply.results@, i as int),
                decreases count - i,
            {
                let hit = &reply.results[i];
                let ghost before = list@;
                push_text(&mut list, "- **");
                push_text(&mut list, hit.title.as_str());
                push_text(&mut list, "**: ");
                push_text(&mut list, hit.url.as_str());
                push_text(&mut list, "\n  ");
                push_text(&mut list, hit.content.as_str());
                push_text(&mut list, "\n\n");
                assert(list@ =~= before + hit_text(reply.results@[i as int]));
                i += 1;
            }
            assert(count == listed(reply.results@));
            parts.push(list);
            assert(texts(parts@) =~= first + seq![
                hits_text(reply.results@, listed(reply.results@)),
            ]);
        }
    } else {
        assert(texts(parts@) =~= first + Seq::<Seq<char>>::empty());
    }
    join_strings(&parts, "\n")
}

} // verus!
