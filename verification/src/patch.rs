//! The patch engine: applies the hunks of a unified diff to a text.
//!
//! A diff is read line by line. Each line is classified (`classify`), and the
//! classified lines drive a cursor over the lines of the text (`step`, `run`).
//! Line numbers in hunk headers count lines of the original text; the cursor
//! accounts for what earlier hunks added and removed.
//!
//! Every line of the text carries its own line end, and keeps it: a line
//! that the diff does not touch comes out as it went in, byte for byte. A
//! line that the diff adds ends with a line feed, unless the diff marks it as
//! a line without one. Only the last line of a text can be without a line
//! feed: a line that another line follows is given one, at the latest when
//! the next hunk begins.

use vstd::prelude::*;
use crate::pattern::{compile, first_group, regex_compile_error, regex_first_group};
use crate::text::{
    assemble, assemble_lines, bare, decimal, has_prefix, option_text, pieces_of, push_decimal,
    push_range, push_text, settle_lines, settled, split_pieces, starts_with, texts, to_chars,
    without_line_end,
};

verus! {

/// The pattern that recognises a hunk header at the start of a line; its
/// first group is the line at which the hunk starts in the original text.
pub const HUNK_HEADER: &'static str = r"^@@ -(\d+),\d+ \+(\d+),\d+ @@";

/// Why a run of characters is no line number.
#[derive(Clone, Copy, Debug, PartialEq, Eq, Structural)]
pub enum NumberFault {
    /// There is no character at all.
    Empty,
    /// A character is not one of `0` to `9`.
    InvalidDigit,
    /// The number does not fit in a `usize`.
    TooLarge,
}

/// Whether `c` is one of `0` to `9`.
pub open spec fn is_digit(c: char) -> bool {
    '0' <= c <= '9'
}

/// The number that a decimal digit stands for.
pub open spec fn digit_value(c: char) -> int {
    c as int - '0' as int
}

/// The number that a run of decimal digits stands for.
pub open spec fn decimal_value(s: Seq<char>) -> nat
    decreases s.len(),
{
    if s.len() == 0 {
        0
    } else {
        (decimal_value(s.drop_last()) * 10 + digit_value(s.last())) as nat
    }
}

/// The length of the longest prefix of `s` that is made of digits.
pub open spec fn digit_prefix(s: Seq<char>) -> int
    decreases s.len(),
{
    if s.len() == 0 || !is_digit(s[0]) {
        0
    } else {
        1 + digit_prefix(s.skip(1))
    }
}

/// The line number that `s` denotes. Reading from the left, the first
/// character that is no digit or the first digit that makes the number exceed
/// `usize::MAX` decides the fault.
pub open spec fn line_number(s: Seq<char>) -> Result<nat, NumberFault> {
    let k = digit_prefix(s);
    if s.len() == 0 {
        Err(NumberFault::Empty)
    } else if decimal_value(s.take(k)) > usize::MAX {
        Err(NumberFault::TooLarge)
    } else if k < s.len() {
        Err(NumberFault::InvalidDigit)
    } else {
        Ok(decimal_value(s))
    }
}

proof fn lemma_digit_prefix(s: Seq<char>, k: int)
    requires
        0 <= k <= s.len(),
        forall|j: int| 0 <= j < k ==> is_digit(s[j]),
        k < s.len() ==> !is_digit(s[k]),
    ensures
        digit_prefix(s) == k,
    decreases s.len(),
{
    if s.len() == 0 || k == 0 {
    } else {
        assert(is_digit(s[0]));
        let t = s.skip(1);
        assert forall|j: int| 0 <= j < k - 1 implies is_digit(t[j]) by {
            assert(t[j] == s[j + 1]);
        }
        lemma_digit_prefix(t, k - 1);
    }
}

proof fn lemma_digit_prefix_bounds(s: Seq<char>)
    ensures
        0 <= digit_prefix(s) <= s.len(),
        forall|j: int| 0 <= j < digit_prefix(s) ==> is_digit(s[j]),
    decreases s.len(),
{
    if s.len() == 0 || !is_digit(s[0]) {
    } else {
        let t = s.skip(1);
        lemma_digit_prefix_bounds(t);
        assert forall|j: int| 0 <= j < digit_prefix(s) implies is_digit(s[j]) by {
            if j > 0 {
                assert(t[j - 1] == s[j]);
            }
        }
    }
}

proof fn lemma_digit_prefix_at_least(s: Seq<char>, m: int)
    requires
        0 <= m <= s.len(),
        forall|j: int| 0 <= j < m ==> is_digit(s[j]),
    ensures
        m <= digit_prefix(s),
    decreases s.len(),
{
    if m > 0 {
        assert(is_digit(s[0]));
        let t = s.skip(1);
        assert forall|j: int| 0 <= j < m - 1 implies is_digit(t[j]) by {
            assert(t[j] == s[j + 1]);
        }
        lemma_digit_prefix_at_least(t, m - 1);
    } else {
        lemma_digit_prefix_bounds(s);
    }
}

/// A longer run of digits stands for a number at least as large.
proof fn lemma_decimal_value_grows(s: Seq<char>, p: int, q: int)
    requires
        0 <= p <= q <= s.len(),
        forall|j: int| 0 <= j < q ==> is_digit(s[j]),
    ensures
        decimal_value(s.take(p)) <= decimal_value(s.take(q)),
    decreases q - p,
{
    if p < q {
        lemma_decimal_value_grows(s, p, q - 1);
        assert(s.take(q).drop_last() =~= s.take(q - 1));
        assert(is_digit(s.take(q).last()));
    }
}

/// Reads a line number.
pub fn parse_line_number(digits: &str) -> (r: Result<usize, NumberFault>)
    ensures
        match r {
            Ok(n) => line_number(digits@) == Ok::<nat, NumberFault>(n as nat),
            Err(f) => line_number(digits@) == Err::<nat, NumberFault>(f),
        },
{
    let v = to_chars(digits);
    if v.len() == 0 {
        return Err(NumberFault::Empty);
    }
    let mut value: usize = 0;
    let mut i: usize = 0;
    assert(v@.take(0) =~= Seq::<char>::empty());
    while i < v.len()
        invariant
            i <= v.len(),
            v@ == digits@,
            forall|j: int| 0 <= j < i ==> is_digit(v@[j]),
            value == decimal_value(v@.take(i as int)),
        decreases v.len() - i,
    {
        let c = v[i];
        if !(c >= '0' && c <= '9') {
            proof {
                lemma_digit_prefix(v@, i as int);
            }
            return Err(NumberFault::InvalidDigit);
        }
        let d: usize = (c as u32 - '0' as u32) as usize;
        proof {
            let next = v@.take(i + 1);
            assert(next.drop_last() =~= v@.take(i as int));
            assert(next.last() == c);
            assert(decimal_value(next) == value * 10 + d);
            lemma_digit_prefix_bounds(v@);
            if value * 10 + d > usize::MAX {
                let k = digit_prefix(v@);
                lemma_digit_prefix_at_least(v@, i + 1);
                lemma_decimal_value_grows(v@, i + 1, k);
            }
        }
        let scaled = match value.checked_mul(10) {
            Some(x) => x,
            None => { return Err(NumberFault::TooLarge); },
        };
        value = match scaled.checked_add(d) {
            Some(x) => x,
            None => { return Err(NumberFault::TooLarge); },
        };
        i += 1;
    }
    proof {
        lemma_digit_prefix(v@, v@.len() as int);
        assert(v@.take(v@.len() as int) =~= v@);
    }
    Ok(value)
}

/// What one line of a diff asks for.
pub enum DiffLine {
    /// A hunk header: the hunk starts at this line of the original text,
    /// counted from 1.
    HunkStart(usize),
    /// A hunk header whose start is no line number: the digits as written, and
    /// what is wrong with them.
    BadStart(String, NumberFault),
    /// A line that sets out as a hunk header and is none: the line.
    BadHeader(String),
    /// Insert this line at the cursor.
    Add(String),
    /// Delete the line at the cursor.
    Remove,
    /// Keep the line at the cursor and move past it.
    Context,
    /// The line just added has no line feed at its end.
    NoLineEnd,
    /// Nothing: a line that is none of the above.
    Skip,
}

/// `DiffLine` as a mathematical value.
pub enum Op {
    HunkStart(nat),
    BadStart(Seq<char>, NumberFault),
    BadHeader(Seq<char>),
    Add(Seq<char>),
    Remove,
    Context,
    NoLineEnd,
    Skip,
}

impl View for DiffLine {
    type V = Op;

    open spec fn view(&self) -> Op {
        match *self {
            DiffLine::HunkStart(n) => Op::HunkStart(n as nat),
            DiffLine::BadStart(digits, fault) => Op::BadStart(digits@, fault),
            DiffLine::BadHeader(line) => Op::BadHeader(line@),
            DiffLine::Add(content) => Op::Add(content@),
            DiffLine::Remove => Op::Remove,
            DiffLine::Context => Op::Context,
            DiffLine::NoLineEnd => Op::NoLineEnd,
            DiffLine::Skip => Op::Skip,
        }
    }
}

/// The views of a sequence of diff lines.
pub open spec fn ops_view(v: Seq<DiffLine>) -> Seq<Op> {
    Seq::new(v.len(), |i: int| v[i]@)
}

/// Why a patch was rejected.
pub enum PatchError {
    /// A hunk header whose start is no line number.
    InvalidLineNumber(String, NumberFault),
    /// A line that sets out as a hunk header and cannot be read as one.
    UnreadableHeader(String),
    /// A hunk that would start before the first line of the text.
    HunkStartOutOfBounds(usize),
    /// A hunk that starts before the end of the hunk before it.
    HunkOutOfOrder(usize),
    /// An addition at a position past the end of the text.
    AdditionOutOfBounds(u128),
    /// A removal at a position where the text has no line.
    RemovalOutOfBounds(u128),
}

/// `PatchError` as a mathematical value.
pub enum Fault {
    InvalidLineNumber(Seq<char>, NumberFault),
    UnreadableHeader(Seq<char>),
    HunkStartOutOfBounds(nat),
    HunkOutOfOrder(nat),
    AdditionOutOfBounds(nat),
    RemovalOutOfBounds(nat),
}

impl View for PatchError {
    type V = Fault;

    open spec fn view(&self) -> Fault {
        match *self {
            PatchError::InvalidLineNumber(digits, fault) => Fault::InvalidLineNumber(
                digits@,
                fault,
            ),
            PatchError::UnreadableHeader(line) => Fault::UnreadableHeader(line@),
            PatchError::HunkStartOutOfBounds(n) => Fault::HunkStartOutOfBounds(n as nat),
            PatchError::HunkOutOfOrder(n) => Fault::HunkOutOfOrder(n as nat),
            PatchError::AdditionOutOfBounds(n) => Fault::AdditionOutOfBounds(n as nat),
            PatchError::RemovalOutOfBounds(n) => Fault::RemovalOutOfBounds(n as nat),
        }
    }
}

/// The words for a `NumberFault`.
pub open spec fn number_fault_text(f: NumberFault) -> Seq<char> {
    match f {
        NumberFault::Empty => "cannot parse integer from empty string"@,
        NumberFault::InvalidDigit => "invalid digit found in string"@,
        NumberFault::TooLarge => "number too large to fit in target type"@,
    }
}

impl Fault {
    /// The message that reports this fault.
    pub open spec fn text(self) -> Seq<char> {
        match self {
            Fault::InvalidLineNumber(digits, fault) => "Invalid line number '"@ + digits + "': "@
                + number_fault_text(fault),
            Fault::UnreadableHeader(line) => "Invalid hunk header '"@ + line + "'"@,
            Fault::HunkStartOutOfBounds(n) => "Diff hunk start line "@ + decimal(n)
                + " is out of bounds"@,
            Fault::HunkOutOfOrder(n) => "Diff hunk start line "@ + decimal(n)
                + " is out of order"@,
            Fault::AdditionOutOfBounds(n) => "Diff addition line "@ + decimal(n)
                + " is out of bounds"@,
            Fault::RemovalOutOfBounds(n) => "Diff removal line "@ + decimal(n)
                + " is out of bounds"@,
        }
    }
}

impl PatchError {
    /// The message that reports this error.
    pub fn message(&self) -> (s: String)
        ensures
            s@ == self@.text(),
    {
        let mut s = String::new();
        match self {
            PatchError::InvalidLineNumber(digits, fault) => {
                push_text(&mut s, "Invalid line number '");
                push_text(&mut s, digits.as_str());
                push_text(&mut s, "': ");
                match fault {
                    NumberFault::Empty => push_text(
                        &mut s,
                        "cannot parse integer from empty string",
                    ),
                    NumberFault::InvalidDigit => push_text(&mut s, "invalid digit found in string"),
                    NumberFault::TooLarge => push_text(
                        &mut s,
                        "number too large to fit in target type",
                    ),
                }
            },
            PatchError::UnreadableHeader(line) => {
                push_text(&mut s, "Invalid hunk header '");
                push_text(&mut s, line.as_str());
                push_text(&mut s, "'");
            },
            PatchError::HunkStartOutOfBounds(n) => {
                push_text(&mut s, "Diff hunk start line ");
                push_decimal(&mut s, *n as u128);
                push_text(&mut s, " is out of bounds");
            },
            PatchError::HunkOutOfOrder(n) => {
                push_text(&mut s, "Diff hunk start line ");
                push_decimal(&mut s, *n as u128);
                push_text(&mut s, " is out of order");
            },
            PatchError::AdditionOutOfBounds(n) => {
                push_text(&mut s, "Diff addition line ");
                push_decimal(&mut s, *n);
                push_text(&mut s, " is out of bounds");
            },
            PatchError::RemovalOutOfBounds(n) => {
                push_text(&mut s, "Diff removal line ");
                push_decimal(&mut s, *n);
                push_text(&mut s, " is out of bounds");
            },
        }
        s
    }
}

/// What a line of a diff asks for, given what the hunk header pattern
/// captured in it.
///
/// Only a line that begins with `@@` is a hunk header: it is one if the
/// pattern matches in it, and otherwise it sets out as a hunk header and
/// cannot be read as one. For every other line the first character
/// decides, whatever the rest of the line holds: `+` adds the rest of the
/// line, `-` removes a line, a blank keeps a line, and a backslash says
/// that the line just added has no line end.
pub open spec fn classify(line: Seq<char>, header: Option<Seq<char>>) -> Op {
    if starts_with(line, "@@"@) {
        match header {
            Some(digits) => match line_number(digits) {
                Ok(n) => Op::HunkStart(n),
                Err(fault) => Op::BadStart(digits, fault),
            },
            None => Op::BadHeader(line),
        }
    } else if line.len() > 0 && line[0] == '+' {
        Op::Add(line.skip(1))
    } else if line.len() > 0 && line[0] == '-' {
        Op::Remove
    } else if line.len() > 0 && line[0] == ' ' {
        Op::Context
    } else if line.len() > 0 && line[0] == '\\' {
        Op::NoLineEnd
    } else {
        Op::Skip
    }
}

/// Classifies one line of a diff. `header` is what the hunk header pattern
/// captured in the line, if it matched; it counts only in a line that
/// begins with `@@`.
pub fn classify_line(line: &str, header: Option<String>) -> (op: DiffLine)
    ensures
        op@ == classify(line@, option_text(header)),
{
    let v = to_chars(line);
    let marks = to_chars("@@");
    if has_prefix(&v, &marks) {
        match header {
            Some(digits) => match parse_line_number(digits.as_str()) {
                Ok(n) => DiffLine::HunkStart(n),
                Err(fault) => DiffLine::BadStart(digits, fault),
            },
            None => DiffLine::BadHeader(line.to_owned()),
        }
    } else if v.len() > 0 && v[0] == '+' {
        let mut content = String::new();
        push_range(&mut content, &v, 1, v.len());
        assert(v@.subrange(1, v@.len() as int) =~= v@.skip(1));
        DiffLine::Add(content)
    } else if v.len() > 0 && v[0] == '-' {
        DiffLine::Remove
    } else if v.len() > 0 && v[0] == ' ' {
        DiffLine::Context
    } else if v.len() > 0 && v[0] == '\\' {
        DiffLine::NoLineEnd
    } else {
        DiffLine::Skip
    }
}

/// The engine's state between two lines of a diff.
pub struct Cursor {
    /// The text so far, line by line, each line with its line end.
    pub lines: Seq<Seq<char>>,
    /// The position in `lines` at which the next line of the hunk acts.
    pub at: int,
    /// Lines added minus lines removed by the hunks before the current one.
    pub shift: int,
    /// Lines added by the current hunk.
    pub added: int,
    /// Lines removed by the current hunk.
    pub removed: int,
    /// Whether a hunk header has been seen.
    pub in_hunk: bool,
    /// Whether the line before the cursor was added by the diff line just
    /// before.
    pub after_add: bool,
}

/// The state before the first line of a diff.
pub open spec fn start_cursor(lines: Seq<Seq<char>>) -> Cursor {
    Cursor { lines, at: 0, shift: 0, added: 0, removed: 0, in_hunk: false, after_add: false }
}

/// The effect of one line of a diff.
///
/// A hunk header moves the cursor to the header's line, corrected by what the
/// earlier hunks added and removed. The cursor never moves back: a hunk that
/// starts before the end of the hunk before it is rejected, and so is a
/// line that sets out as a hunk header and cannot be read. With a hunk
/// header the lines so far are settled: a line that another line follows
/// has a line feed at its end from then on. An addition inserts its line,
/// ended by a line feed, at the cursor and moves past it; the mark that may
/// follow takes the line feed away again, unless the line is empty. A
/// removal deletes the line at the cursor, a context line moves past one
/// line. Before the first header, additions, removals and context lines
/// have no effect.
pub open spec fn step(c: Cursor, op: Op) -> Result<Cursor, Fault> {
    match op {
        Op::HunkStart(start) => {
            let shift = c.shift + c.added - c.removed;
            let at = start - 1 + shift;
            if at < 0 {
                Err(Fault::HunkStartOutOfBounds(start))
            } else if c.in_hunk && at < c.at {
                Err(Fault::HunkOutOfOrder(start))
            } else {
                Ok(
                    Cursor {
                        lines: settled(c.lines),
                        at,
                        shift,
                        added: 0,
                        removed: 0,
                        in_hunk: true,
                        after_add: false,
                    },
                )
            }
        },
        Op::BadStart(digits, fault) => Err(Fault::InvalidLineNumber(digits, fault)),
        Op::BadHeader(line) => Err(Fault::UnreadableHeader(line)),
        Op::Add(content) => if !c.in_hunk {
            Ok(c)
        } else if c.at > c.lines.len() {
            Err(Fault::AdditionOutOfBounds(c.at as nat))
        } else {
            Ok(
                Cursor {
                    lines: c.lines.insert(c.at, content.push('\n')),
                    at: c.at + 1,
                    added: c.added + 1,
                    after_add: true,
                    ..c
                },
            )
        },
        Op::Remove => if !c.in_hunk {
            Ok(c)
        } else if c.at >= c.lines.len() {
            Err(Fault::RemovalOutOfBounds(c.at as nat))
        } else {
            Ok(
                Cursor {
                    lines: c.lines.remove(c.at),
                    removed: c.removed + 1,
                    after_add: false,
                    ..c
                },
            )
        },
        Op::Context => if c.in_hunk {
            Ok(Cursor { at: c.at + 1, after_add: false, ..c })
        } else {
            Ok(c)
        },
        Op::NoLineEnd => if c.in_hunk && c.after_add && 0 < c.at <= c.lines.len() && bare(
            c.lines[c.at - 1],
        ).len() > 0 {
            Ok(
                Cursor {
                    lines: c.lines.update(c.at - 1, bare(c.lines[c.at - 1])),
                    after_add: false,
                    ..c
                },
            )
        } else {
            Ok(c)
        },
        Op::Skip => Ok(c),
    }
}

/// The effect of a sequence of diff lines, stopping at the first fault.
pub open spec fn run(c: Cursor, ops: Seq<Op>) -> Result<Cursor, Fault>
    decreases ops.len(),
{
    if ops.len() == 0 {
        Ok(c)
    } else {
        match run(c, ops.drop_last()) {
            Ok(mid) => step(mid, ops.last()),
            Err(fault) => Err(fault),
        }
    }
}

/// The lines that a sequence of diff lines makes of `original`, each line
/// with its line end.
pub open spec fn patched(original: Seq<Seq<char>>, ops: Seq<Op>) -> Result<Seq<Seq<char>>, Fault> {
    match run(start_cursor(original), ops) {
        Ok(c) => Ok(c.lines),
        Err(fault) => Err(fault),
    }
}

/// The text that a sequence of diff lines makes of `original`: the text is
/// taken apart into its lines, each with its line end, the diff lines are
/// applied, and the lines are put together again as they are.
pub open spec fn patched_text(original: Seq<char>, ops: Seq<Op>) -> Result<Seq<char>, Fault> {
    match patched(pieces_of(original), ops) {
        Ok(lines) => Ok(assemble(lines)),
        Err(fault) => Err(fault),
    }
}

/// Applies classified diff lines to the lines of a text, each line with its
/// line end. Either every line of the diff takes effect or the text is not
/// returned at all.
pub fn apply_lines(original: Vec<String>, ops: &Vec<DiffLine>) -> (r: Result<
    Vec<String>,
    PatchError,
>)
    ensures
        match r {
            Ok(lines) => patched(texts(original@), ops_view(ops@)) == Ok::<Seq<Seq<char>>, Fault>(
                texts(lines@),
            ),
            Err(e) => patched(texts(original@), ops_view(ops@)) == Err::<Seq<Seq<char>>, Fault>(
                e@,
            ),
        },
{
    let ghost all = ops_view(ops@);
    let ghost first = start_cursor(texts(original@));
    let mut lines = original;
    let mut at: i128 = 0;
    let mut shift: i128 = 0;
    let mut added: i128 = 0;
    let mut removed: i128 = 0;
    let mut in_hunk = false;
    let mut after_add = false;
    let mut last_added = String::new();
    let mut i: usize = 0;
    assert(all.take(0) =~= Seq::<Op>::empty());
    while i < ops.len()
        invariant
            i <= ops.len(),
            all == ops_view(ops@),
            first == start_cursor(texts(original@)),
            0 <= added,
            0 <= removed,
            shift + added <= i,
            -i <= shift - removed,
            0 <= at <= usize::MAX + i,
            after_add ==> in_hunk && 0 < at <= lines@.len() && lines@[at - 1]@
                == last_added@.push('\n'),
            run(first, all.take(i as int)) == Ok::<Cursor, Fault>(
                Cursor {
                    lines: texts(lines@),
                    at: at as int,
                    shift: shift as int,
                    added: added as int,
                    removed: removed as int,
                    in_hunk,
                    after_add,
                },
            ),
        decreases ops.len() - i,
    {
        proof {
            let next = all.take(i + 1);
            assert(next.drop_last() =~= all.take(i as int));
            assert(next.last() == ops@[i as int]@);
        }
        match &ops[i] {
            DiffLine::HunkStart(start) => {
                shift = shift + added - removed;
                added = 0;
                removed = 0;
                let target = *start as i128 - 1 + shift;
                if target < 0 {
                    proof {
                        lemma_run_stuck(first, all, i + 1);
                        assert(all.take(all.len() as int) =~= all);
                    }
                    return Err(PatchError::HunkStartOutOfBounds(*start));
                }
                if in_hunk && target < at {
                    proof {
                        lemma_run_stuck(first, all, i + 1);
                        assert(all.take(all.len() as int) =~= all);
                    }
                    return Err(PatchError::HunkOutOfOrder(*start));
                }
                settle_lines(&mut lines);
                in_hunk = true;
                after_add = false;
                at = target;
            },
            DiffLine::BadStart(digits, fault) => {
                proof {
                    lemma_run_stuck(first, all, i + 1);
                    assert(all.take(all.len() as int) =~= all);
                }
                return Err(PatchError::InvalidLineNumber(digits.clone(), *fault));
            },
            DiffLine::BadHeader(line) => {
                proof {
                    lemma_run_stuck(first, all, i + 1);
                    assert(all.take(all.len() as int) =~= all);
                }
                return Err(PatchError::UnreadableHeader(line.clone()));
            },
            DiffLine::Add(content) => {
                if in_hunk {
                    if at > lines.len() as i128 {
                        proof {
                            lemma_run_stuck(first, all, i + 1);
                            assert(all.take(all.len() as int) =~= all);
                        }
                        return Err(PatchError::AdditionOutOfBounds(at as u128));
                    }
                    let ghost before = lines@;
                    let mut line = content.clone();
                    line.push('\n');
                    lines.insert(at as usize, line);
                    assert(texts(lines@) =~= texts(before).insert(
                        at as int,
                        content@.push('\n'),
                    ));
                    last_added = content.clone();
                    at = at + 1;
                    added = added + 1;
                    after_add = true;
                }
            },
            DiffLine::Remove => {
                if in_hunk {
                    if at >= lines.len() as i128 {
                        proof {
                            lemma_run_stuck(first, all, i + 1);
                            assert(all.take(all.len() as int) =~= all);
                        }
                        return Err(PatchError::RemovalOutOfBounds(at as u128));
                    }
                    let ghost before = lines@;
                    lines.remove(at as usize);
                    assert(texts(lines@) =~= texts(before).remove(at as int));
                    removed = removed + 1;
                    after_add = false;
                }
            },
            DiffLine::Context => {
                if in_hunk {
                    at = at + 1;
                    after_add = false;
                }
            },
            DiffLine::NoLineEnd => {
                let ghost closed = last_added@.push('\n');
                assert(bare(closed) =~= last_added@);
                if after_add && !last_added.as_str().is_empty() {
                    let ghost before = lines@;
                    assert(texts(before)[at - 1] == closed);
                    lines.set((at - 1) as usize, last_added.clone());
                    assert(texts(lines@) =~= texts(before).update(at - 1, last_added@));
                    after_add = false;
                }
            },
            DiffLine::Skip => {},
        }
        i += 1;
    }
    assert(all.take(all.len() as int) =~= all);
    Ok(lines)
}

/// Once a line of the diff has failed, the lines after it change nothing.
proof fn lemma_run_stuck(c: Cursor, ops: Seq<Op>, k: int)
    requires
        0 <= k <= ops.len(),
        run(c, ops.take(k)) is Err,
    ensures
        run(c, ops.take(ops.len() as int)) == run(c, ops.take(k)),
    decreases ops.len() - k,
{
    if k < ops.len() {
        let next = ops.take(k + 1);
        assert(next.drop_last() =~= ops.take(k));
        lemma_run_stuck(c, ops, k + 1);
    }
}

/// Applies classified diff lines to a text. Either every line of the diff
/// takes effect or the text is not returned at all.
pub fn apply_to_text(original: &str, ops: &Vec<DiffLine>) -> (r: Result<String, PatchError>)
    ensures
        match r {
            Ok(s) => patched_text(original@, ops_view(ops@)) == Ok::<Seq<char>, Fault>(s@),
            Err(e) => patched_text(original@, ops_view(ops@)) == Err::<Seq<char>, Fault>(e@),
        },
{
    match apply_lines(split_pieces(original), ops) {
        Ok(lines) => Ok(assemble_lines(&lines)),
        Err(e) => Err(e),
    }
}

/// The lines of a diff: its pieces, each without the line feed that ends
/// it.
pub open spec fn diff_lines(diff: Seq<char>) -> Seq<Seq<char>> {
    Seq::new(pieces_of(diff).len(), |i: int| bare(pieces_of(diff)[i]))
}

/// The diff lines that the lines of a diff stand for.
pub open spec fn diff_ops(lines: Seq<Seq<char>>) -> Seq<Op> {
    Seq::new(
        lines.len(),
        |i: int| classify(lines[i], regex_first_group(HUNK_HEADER@, lines[i])),
    )
}

/// What applying `diff` to `original` gives: the new text, or the message
/// that says why the diff is rejected.
///
/// An empty diff leaves the text as it is. Otherwise the lines of the diff
/// are classified and applied to the text.
pub open spec fn patch_outcome(original: Seq<char>, diff: Seq<char>) -> Result<
    Seq<char>,
    Seq<char>,
> {
    if diff.len() == 0 {
        Ok(original)
    } else {
        match regex_compile_error(HUNK_HEADER@) {
            Some(report) => Err(report),
            None => match patched_text(original, diff_ops(diff_lines(diff))) {
                Ok(text) => Ok(text),
                Err(fault) => Err(fault.text()),
            },
        }
    }
}

/// Applies a unified diff to a text.
///
/// Returns the new text only if the whole diff applies; otherwise the message
/// of the first fault. An empty diff returns the text unchanged.
pub fn apply_patch(original: &str, diff: &str) -> (r: Result<String, String>)
    ensures
        match r {
            Ok(s) => patch_outcome(original@, diff@) == Ok::<Seq<char>, Seq<char>>(s@),
            Err(e) => patch_outcome(original@, diff@) == Err::<Seq<char>, Seq<char>>(e@),
        },
        diff@.len() == 0 ==> (r matches Ok(s) && s@ == original@),
{
    if diff.is_empty() {
        return Ok(original.to_owned());
    }
    let hunk_header = match compile(HUNK_HEADER) {
        Ok(pattern) => pattern,
        Err(report) => { return Err(report); },
    };
    let pieces = split_pieces(diff);
    let mut ops: Vec<DiffLine> = Vec::new();
    let mut i: usize = 0;
    while i < pieces.len()
        invariant
            i <= pieces.len(),
            texts(pieces@) == pieces_of(diff@),
            hunk_header@ == HUNK_HEADER@,
            ops@.len() == i,
            ops_view(ops@) == diff_ops(diff_lines(diff@)).take(i as int),
        decreases pieces.len() - i,
    {
        let line = without_line_end(pieces[i].as_str());
        let header = first_group(&hunk_header, line.as_str());
        let op = classify_line(line.as_str(), header);
        proof {
            let all = diff_ops(diff_lines(diff@));
            assert(texts(pieces@)[i as int] == pieces@[i as int]@);
            assert(diff_lines(diff@)[i as int] == line@);
            assert(all.len() == pieces@.len());
            assert(all[i as int] == op@);
            let grown = ops_view(ops@.push(op));
            assert forall|j: int| 0 <= j < i + 1 implies grown[j] == all.take(i + 1)[j] by {
                if j < i {
                    assert(ops_view(ops@)[j] == all.take(i as int)[j]);
                }
            }
            assert(grown =~= all.take(i + 1));
        }
        ops.push(op);
        i += 1;
    }
    proof {
        let all = diff_ops(diff_lines(diff@));
        assert(all.take(all.len() as int) =~= all);
    }
    match apply_to_text(original, &ops) {
        Ok(text) => Ok(text),
        Err(e) => Err(e.message()),
    }
}

} // verus!
