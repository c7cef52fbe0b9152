//! What holds of the patch engine whatever the text and the diff.
//!
//! The laws speak of texts and of classified diff lines. The last two say
//! the same of diffs as they are written, for a diff that reads as the
//! classified lines in question.

use vstd::prelude::*;
use crate::patch::{
    classify, diff_lines, diff_ops, patch_outcome, patched, patched_text, run, start_cursor, step,
    Cursor, Fault, Op, HUNK_HEADER,
};
use crate::pattern::regex_compile_error;
use crate::text::{
    all_lines, bare, closed, ends_line, is_line, lemma_assemble_settled, lemma_settled_of_proper,
    lemma_settled_proper, lemma_settled_twice, settled, starts_with, flat, lemma_assemble_proper, lemma_flat_pieces, lemma_pieces_flat,
    lemma_pieces_proper, pieces_of, proper,
};

verus! {

/// Running two sequences of diff lines one after the other is running their
/// concatenation.
pub proof fn lemma_run_concat(c: Cursor, a: Seq<Op>, b: Seq<Op>)
    ensures
        run(c, a + b) == match run(c, a) {
            Ok(mid) => run(mid, b),
            Err(fault) => Err(fault),
        },
    decreases b.len(),
{
    if b.len() == 0 {
        assert(a + b =~= a);
    } else {
        assert((a + b).drop_last() =~= a + b.drop_last());
        assert((a + b).last() == b.last());
        lemma_run_concat(c, a, b.drop_last());
    }
}

/// Running a single diff line is taking one step.
pub proof fn lemma_run_one(c: Cursor, op: Op)
    ensures
        run(c, seq![op]) == step(c, op),
{
    reveal_with_fuel(run, 2);
    assert(seq![op].drop_last() =~= Seq::<Op>::empty());
}

/// An empty diff leaves every text as it is, byte for byte.
pub proof fn empty_diff_is_identity(original: Seq<char>)
    ensures
        patched_text(original, Seq::<Op>::empty()) == Ok::<Seq<char>, Fault>(original),
        patch_outcome(original, Seq::<char>::empty()) == Ok::<Seq<char>, Seq<char>>(original),
{
    lemma_pieces_proper(original);
    lemma_assemble_proper(pieces_of(original));
    lemma_flat_pieces(original);
}

/// A line that begins with a plus, a minus or a blank is an addition, a
/// removal or a context line, whatever else it holds and whatever the
/// pattern for hunk headers finds in it.
pub proof fn first_character_decides(line: Seq<char>, header: Option<Seq<char>>)
    requires
        line.len() > 0,
    ensures
        line[0] == '+' ==> classify(line, header) == Op::Add(line.skip(1)),
        line[0] == '-' ==> classify(line, header) == Op::Remove,
        line[0] == ' ' ==> classify(line, header) == Op::Context,
        classify(line, header) is HunkStart ==> starts_with(line, "@@"@),
{
    reveal_strlit("@@");
    if starts_with(line, "@@"@) {
        assert(line.take(2)[0] == '@');
    }
}

/// Whether a diff line may stand inside a hunk: it is no hunk header, and
/// what it adds holds no line feed, as no line of a diff does.
pub open spec fn in_body(op: Op) -> bool {
    match op {
        Op::Add(content) => !content.contains('\n'),
        Op::Remove => true,
        Op::Context => true,
        Op::NoLineEnd => true,
        Op::Skip => true,
        _ => false,
    }
}

/// Whether every line of `body` may stand inside a hunk.
pub open spec fn is_body(body: Seq<Op>) -> bool {
    forall|i: int| 0 <= i < body.len() ==> in_body(#[trigger] body[i])
}

/// A hunk: its header followed by its body.
pub open spec fn hunk(start: nat, body: Seq<Op>) -> Seq<Op> {
    seq![Op::HunkStart(start)] + body
}

/// How many lines a hunk body adds.
pub open spec fn additions(body: Seq<Op>) -> nat
    decreases body.len(),
{
    if body.len() == 0 {
        0
    } else {
        additions(body.drop_last()) + if body.last() is Add {
            1nat
        } else {
            0nat
        }
    }
}

/// How many lines a hunk body removes.
pub open spec fn removals(body: Seq<Op>) -> nat
    decreases body.len(),
{
    if body.len() == 0 {
        0
    } else {
        removals(body.drop_last()) + if body.last() is Remove {
            1nat
        } else {
            0nat
        }
    }
}

/// How many lines a hunk body keeps.
pub open spec fn contexts(body: Seq<Op>) -> nat
    decreases body.len(),
{
    if body.len() == 0 {
        0
    } else {
        contexts(body.drop_last()) + if body.last() is Context {
            1nat
        } else {
            0nat
        }
    }
}

/// Inside a hunk, a body that applies counts its additions and removals,
/// leaves the shift of the earlier hunks alone, and moves the cursor past
/// the lines that it adds or keeps.
proof fn lemma_body_counts(c: Cursor, body: Seq<Op>)
    requires
        is_body(body),
        c.in_hunk,
    ensures
        run(c, body) matches Ok(end) ==> {
            &&& end.in_hunk
            &&& end.shift == c.shift
            &&& end.added == c.added + additions(body)
            &&& end.removed == c.removed + removals(body)
            &&& end.at == c.at + additions(body) + contexts(body)
        },
    decreases body.len(),
{
    if body.len() > 0 {
        let init = body.drop_last();
        assert(is_body(init)) by {
            assert forall|i: int| 0 <= i < init.len() implies in_body(#[trigger] init[i]) by {
                assert(init[i] == body[i]);
            }
        }
        assert(in_body(body[body.len() - 1]));
        lemma_body_counts(c, init);
    }
}

/// A hunk body acts alike on two states that differ in the shift only.
proof fn lemma_shift_is_not_read(c: Cursor, shift: int, body: Seq<Op>)
    requires
        is_body(body),
    ensures
        run(Cursor { shift, ..c }, body) == match run(c, body) {
            Ok(end) => Ok(Cursor { shift, ..end }),
            Err(fault) => Err(fault),
        },
    decreases body.len(),
{
    if body.len() > 0 {
        let init = body.drop_last();
        assert(is_body(init)) by {
            assert forall|i: int| 0 <= i < init.len() implies in_body(#[trigger] init[i]) by {
                assert(init[i] == body[i]);
            }
        }
        assert(in_body(body[body.len() - 1]));
        lemma_shift_is_not_read(c, shift, init);
    }
}

/// The line at which a hunk starts once the hunk before it has been applied:
/// its line in the original text, moved by what that hunk added and removed.
pub open spec fn moved_start(start: nat, before: Seq<Op>) -> nat {
    (start + additions(before) - removals(before)) as nat
}

/// Two hunks that do not overlap act on lines in one diff as they do one
/// after the other.
proof fn lemma_hunks_compose(
    base: Seq<Seq<char>>,
    start1: nat,
    body1: Seq<Op>,
    start2: nat,
    body2: Seq<Op>,
)
    requires
        is_body(body1),
        is_body(body2),
        start1 + removals(body1) + contexts(body1) <= start2,
    ensures
        patched(base, hunk(start1, body1) + hunk(start2, body2)) == match patched(
            base,
            hunk(start1, body1),
        ) {
            Ok(mid) => patched(mid, hunk(moved_start(start2, body1), body2)),
            Err(fault) => Err(fault),
        },
{
    let first = hunk(start1, body1);
    let second = hunk(start2, body2);
    let c0 = start_cursor(base);
    lemma_run_concat(c0, first, second);
    let head1 = seq![Op::HunkStart(start1)];
    lemma_run_concat(c0, head1, body1);
    lemma_run_one(c0, Op::HunkStart(start1));
    if start1 == 0 {
        // The first hunk is rejected, alone and in the diff of both.
        assert(run(c0, head1) is Err);
    } else {
        let c1 = Cursor { lines: settled(base), at: start1 - 1, in_hunk: true, ..c0 };
        assert(run(c0, head1) == Ok::<Cursor, Fault>(c1));
        lemma_body_counts(c1, body1);
        match run(c1, body1) {
            Ok(end) => {
                let moved = moved_start(start2, body1);
                let head2 = seq![Op::HunkStart(start2)];
                let head2m = seq![Op::HunkStart(moved)];
                // in one diff
                lemma_run_concat(end, head2, body2);
                let at = start2 - 1 + additions(body1) - removals(body1);
                let d = Cursor {
                    lines: settled(end.lines),
                    at,
                    shift: additions(body1) - removals(body1),
                    added: 0,
                    removed: 0,
                    in_hunk: true,
                    after_add: false,
                };
                lemma_run_one(end, Op::HunkStart(start2));
                assert(run(end, head2) == Ok::<Cursor, Fault>(d));
                // one after the other
                let e0 = start_cursor(end.lines);
                lemma_run_concat(e0, head2m, body2);
                let e = Cursor { shift: 0, ..d };
                lemma_run_one(e0, Op::HunkStart(moved));
                assert(run(e0, head2m) == Ok::<Cursor, Fault>(e));
                lemma_shift_is_not_read(d, 0, body2);
            },
            Err(fault) => {},
        }
    }
}

/// The lines stay lines under one diff line of a hunk body.
proof fn lemma_step_keeps_lines(c: Cursor, op: Op)
    requires
        in_body(op),
        all_lines(c.lines),
        0 <= c.at,
    ensures
        step(c, op) matches Ok(end) ==> all_lines(end.lines) && 0 <= end.at,
{
    match step(c, op) {
        Ok(end) => {
            assert forall|i: int| 0 <= i < end.lines.len() implies is_line(
                #[trigger] end.lines[i],
            ) by {
                match op {
                    Op::Add(content) => {
                        if c.in_hunk {
                            let line = content.push('\n');
                            assert(is_line(line)) by {
                                assert forall|j: int| 0 <= j < line.len() - 1 implies line[j]
                                    != '\n' by {
                                    assert(line[j] == content[j]);
                                    assert(content.contains(content[j]));
                                }
                            }
                            if i < c.at {
                                assert(end.lines[i] == c.lines[i]);
                            } else if i > c.at {
                                assert(end.lines[i] == c.lines[i - 1]);
                            }
                        }
                    },
                    Op::Remove => {
                        if c.in_hunk {
                            if i < c.at {
                                assert(end.lines[i] == c.lines[i]);
                            } else {
                                assert(end.lines[i] == c.lines[i + 1]);
                            }
                        }
                    },
                    Op::NoLineEnd => {
                        if end.lines != c.lines {
                            let k = c.at - 1;
                            let whole = c.lines[k];
                            assert(is_line(whole));
                            if i == k {
                                let cut = bare(whole);
                                assert forall|j: int| 0 <= j < cut.len() - 1 implies cut[j]
                                    != '\n' by {
                                    assert(cut[j] == whole[j]);
                                }
                            } else {
                                assert(end.lines[i] == c.lines[i]);
                            }
                        }
                    },
                    _ => {},
                }
            }
        },
        Err(fault) => {},
    }
}

/// The lines stay lines under a hunk body.
proof fn lemma_body_keeps_lines(c: Cursor, body: Seq<Op>)
    requires
        is_body(body),
        all_lines(c.lines),
        0 <= c.at,
    ensures
        run(c, body) matches Ok(end) ==> all_lines(end.lines) && 0 <= end.at,
    decreases body.len(),
{
    if body.len() > 0 {
        let init = body.drop_last();
        assert(is_body(init)) by {
            assert forall|i: int| 0 <= i < init.len() implies in_body(#[trigger] init[i]) by {
                assert(init[i] == body[i]);
            }
        }
        assert(in_body(body[body.len() - 1]));
        lemma_body_keeps_lines(c, init);
        match run(c, init) {
            Ok(mid) => {
                lemma_step_keeps_lines(mid, body.last());
            },
            Err(fault) => {},
        }
    }
}

/// A hunk leaves lines that are lines.
proof fn lemma_hunk_keeps_lines(base: Seq<Seq<char>>, start: nat, body: Seq<Op>)
    requires
        is_body(body),
        all_lines(base),
    ensures
        patched(base, hunk(start, body)) matches Ok(lines) ==> all_lines(lines),
{
    let c0 = start_cursor(base);
    let head = seq![Op::HunkStart(start)];
    lemma_run_concat(c0, head, body);
    lemma_run_one(c0, Op::HunkStart(start));
    match run(c0, head) {
        Ok(c1) => {
            lemma_settled_proper(base);
            lemma_body_keeps_lines(c1, body);
        },
        Err(fault) => {},
    }
}

/// A hunk acts on settled lines as it acts on the lines themselves: its
/// header settles them first.
proof fn lemma_hunk_settles(lines: Seq<Seq<char>>, start: nat, body: Seq<Op>)
    ensures
        patched(settled(lines), hunk(start, body)) == patched(lines, hunk(start, body)),
{
    let head = seq![Op::HunkStart(start)];
    lemma_run_concat(start_cursor(lines), head, body);
    lemma_run_concat(start_cursor(settled(lines)), head, body);
    lemma_run_one(start_cursor(lines), Op::HunkStart(start));
    lemma_run_one(start_cursor(settled(lines)), Op::HunkStart(start));
    lemma_settled_twice(lines);
}

/// Two hunks that do not overlap, applied in one diff, give what applying
/// the first and then the second gives, the second at the line to which the
/// first has moved its start.
///
/// The second hunk starts at or after the line that follows the lines of
/// the original that the first one removes or keeps.
pub proof fn hunks_compose(
    base: Seq<char>,
    start1: nat,
    body1: Seq<Op>,
    start2: nat,
    body2: Seq<Op>,
)
    requires
        is_body(body1),
        is_body(body2),
        start1 + removals(body1) + contexts(body1) <= start2,
    ensures
        patched_text(base, hunk(start1, body1) + hunk(start2, body2)) == match patched_text(
            base,
            hunk(start1, body1),
        ) {
            Ok(mid) => patched_text(mid, hunk(moved_start(start2, body1), body2)),
            Err(fault) => Err(fault),
        },
{
    lemma_hunks_compose(pieces_of(base), start1, body1, start2, body2);
    lemma_pieces_proper(base);
    lemma_hunk_keeps_lines(pieces_of(base), start1, body1);
    match patched(pieces_of(base), hunk(start1, body1)) {
        Ok(lines) => {
            lemma_assemble_settled(lines);
            lemma_settled_proper(lines);
            lemma_pieces_flat(settled(lines));
            lemma_hunk_settles(lines, moved_start(start2, body1), body2);
        },
        Err(fault) => {},
    }
}

/// One step of an edit script: a line of the old text that stays, one that
/// goes, or a line that comes new. Each line carries its line end.
pub enum Edit {
    Keep(Seq<char>),
    Delete(Seq<char>),
    Insert(Seq<char>),
}

/// The lines that an edit script starts from.
pub open spec fn source(script: Seq<Edit>) -> Seq<Seq<char>>
    decreases script.len(),
{
    if script.len() == 0 {
        Seq::empty()
    } else {
        source(script.drop_last()) + match script.last() {
            Edit::Keep(line) => seq![line],
            Edit::Delete(line) => seq![line],
            Edit::Insert(_) => Seq::empty(),
        }
    }
}

/// The lines that an edit script arrives at.
pub open spec fn target(script: Seq<Edit>) -> Seq<Seq<char>>
    decreases script.len(),
{
    if script.len() == 0 {
        Seq::empty()
    } else {
        target(script.drop_last()) + match script.last() {
            Edit::Keep(line) => seq![line],
            Edit::Delete(_) => Seq::empty(),
            Edit::Insert(line) => seq![line],
        }
    }
}

/// The diff lines that write one step of an edit script down. A new line
/// without a line feed at its end is followed by the mark that says so.
pub open spec fn edit_ops(edit: Edit) -> Seq<Op> {
    match edit {
        Edit::Keep(_) => seq![Op::Context],
        Edit::Delete(_) => seq![Op::Remove],
        Edit::Insert(line) => if ends_line(line) {
            seq![Op::Add(bare(line))]
        } else {
            seq![Op::Add(line), Op::NoLineEnd]
        },
    }
}

/// Whether a step of an edit script can be written down: a line that comes
/// new is not empty.
pub open spec fn writable(edit: Edit) -> bool {
    match edit {
        Edit::Insert(line) => line.len() > 0,
        _ => true,
    }
}

/// In a script that arrives at the lines of a text, every step can be
/// written down.
proof fn lemma_proper_target_writable(script: Seq<Edit>)
    requires
        all_lines(target(script)),
    ensures
        forall|i: int| 0 <= i < script.len() ==> writable(#[trigger] script[i]),
    decreases script.len(),
{
    if script.len() > 0 {
        let init = script.drop_last();
        let whole = target(script);
        assert(all_lines(target(init))) by {
            assert forall|i: int| 0 <= i < target(init).len() implies is_line(
                #[trigger] target(init)[i],
            ) by {
                assert(whole[i] == target(init)[i]);
            }
        }
        lemma_proper_target_writable(init);
        match script.last() {
            Edit::Insert(line) => {
                assert(whole[whole.len() - 1] == line);
            },
            _ => {},
        }
        assert forall|i: int| 0 <= i < script.len() implies writable(#[trigger] script[i]) by {
            if i < init.len() {
                assert(init[i] == script[i]);
            }
        }
    }
}

/// The body of the hunk that writes an edit script down.
pub open spec fn script_body(script: Seq<Edit>) -> Seq<Op>
    decreases script.len(),
{
    if script.len() == 0 {
        Seq::empty()
    } else {
        script_body(script.drop_last()) + edit_ops(script.last())
    }
}

/// Running two diff lines is taking two steps.
proof fn lemma_run_two(c: Cursor, a: Op, b: Op)
    ensures
        run(c, seq![a, b]) == match step(c, a) {
            Ok(mid) => step(mid, b),
            Err(fault) => Err(fault),
        },
{
    assert(seq![a, b].drop_last() =~= seq![a]);
    lemma_run_one(c, a);
}

proof fn lemma_script_run(
    front: Seq<Seq<char>>,
    script: Seq<Edit>,
    rest: Seq<Seq<char>>,
    c: Cursor,
)
    requires
        c.in_hunk,
        c.at == front.len(),
        c.lines == front + source(script) + rest,
        forall|i: int| 0 <= i < script.len() ==> writable(#[trigger] script[i]),
    ensures
        run(c, script_body(script)) matches Ok(end) && end.in_hunk && end.lines == front + target(
            script,
        ) + rest && end.at == front.len() + target(script).len(),
    decreases script.len(),
{
    if script.len() > 0 {
        let init = script.drop_last();
        assert forall|i: int| 0 <= i < init.len() implies writable(#[trigger] init[i]) by {
            assert(init[i] == script[i]);
        }
        assert(writable(script[script.len() - 1]));
        let own = match script.last() {
            Edit::Keep(line) => seq![line],
            Edit::Delete(line) => seq![line],
            Edit::Insert(_) => Seq::<Seq<char>>::empty(),
        };
        assert(front + source(script) + rest =~= front + source(init) + (own + rest));
        lemma_script_run(front, init, own + rest, c);
        lemma_run_concat(c, script_body(init), edit_ops(script.last()));
        let mid = run(c, script_body(init))->Ok_0;
        let k = (front.len() + target(init).len()) as int;
        let before = front + target(init) + (own + rest);
        let after = front + target(script) + rest;
        assert(mid.lines == before);
        match script.last() {
            Edit::Keep(line) => {
                lemma_run_one(mid, Op::Context);
                assert(before =~= after);
            },
            Edit::Delete(line) => {
                lemma_run_one(mid, Op::Remove);
                assert(before.remove(k) =~= after);
            },
            Edit::Insert(line) => {
                if ends_line(line) {
                    lemma_run_one(mid, Op::Add(bare(line)));
                    assert(bare(line).push('\n') =~= line);
                    assert(before.insert(k, line) =~= after);
                } else {
                    lemma_run_two(mid, Op::Add(line), Op::NoLineEnd);
                    let closed = line.push('\n');
                    assert(bare(closed) =~= line);
                    let inserted = before.insert(k, closed);
                    assert(inserted[k] == closed);
                    assert(inserted.update(k, line) =~= after);
                }
            },
        }
    } else {
        assert(front + source(script) + rest =~= front + target(script) + rest);
    }
}

/// One hunk replaces exactly its lines and keeps the rest: applied to a
/// text, the hunk that writes an edit script down puts the lines that the
/// script arrives at in the place of the lines that it starts from; the
/// lines before and after them stay as they are and where they are.
///
/// The lines before, the lines of the script and the lines after are the
/// lines of a text, both with what the script starts from and with what it
/// arrives at.
pub proof fn hunk_replaces_its_lines(
    front: Seq<Seq<char>>,
    script: Seq<Edit>,
    rest: Seq<Seq<char>>,
)
    requires
        proper(front + source(script) + rest),
        proper(front + target(script) + rest),
    ensures
        patched_text(
            flat(front + source(script) + rest),
            hunk((front.len() + 1) as nat, script_body(script)),
        ) == Ok::<Seq<char>, Fault>(flat(front + target(script) + rest)),
{
    let old = front + source(script) + rest;
    let new = front + target(script) + rest;
    let start = (front.len() + 1) as nat;
    lemma_pieces_flat(old);
    lemma_settled_of_proper(old);
    assert(all_lines(target(script))) by {
        assert forall|i: int| 0 <= i < target(script).len() implies is_line(
            #[trigger] target(script)[i],
        ) by {
            assert(new[front.len() + i] == target(script)[i]);
        }
    }
    lemma_proper_target_writable(script);
    let c0 = start_cursor(old);
    let head = seq![Op::HunkStart(start)];
    lemma_run_concat(c0, head, script_body(script));
    lemma_run_one(c0, Op::HunkStart(start));
    let c1 = Cursor { at: front.len() as int, in_hunk: true, ..c0 };
    assert(run(c0, head) == Ok::<Cursor, Fault>(c1));
    lemma_script_run(front, script, rest, c1);
    lemma_assemble_proper(new);
}

/// A diff computed from a text and applied to it gives exactly the text
/// that the diff was computed for: the hunk that writes an edit script
/// down, applied to the text that the script starts from, yields the text
/// that the script arrives at, line ends and all.
///
/// The script starts from the lines of a text and arrives at the lines of
/// a text.
pub proof fn round_trip(script: Seq<Edit>)
    requires
        proper(source(script)),
        proper(target(script)),
    ensures
        patched_text(flat(source(script)), hunk(1, script_body(script))) == Ok::<
            Seq<char>,
            Fault,
        >(flat(target(script))),
{
    let none = Seq::<Seq<char>>::empty();
    assert(none + source(script) + none =~= source(script));
    assert(none + target(script) + none =~= target(script));
    hunk_replaces_its_lines(none, script, none);
}

/// The edit script that deletes every line of `old` and then inserts every
/// line of `new`.
pub open spec fn rewrite(old: Seq<Seq<char>>, new: Seq<Seq<char>>) -> Seq<Edit> {
    Seq::new(old.len(), |i: int| Edit::Delete(old[i])) + Seq::new(
        new.len(),
        |i: int| Edit::Insert(new[i]),
    )
}

proof fn lemma_deletes(old: Seq<Seq<char>>)
    ensures
        source(Seq::new(old.len(), |i: int| Edit::Delete(old[i]))) == old,
        target(Seq::new(old.len(), |i: int| Edit::Delete(old[i]))) == Seq::<Seq<char>>::empty(),
    decreases old.len(),
{
    let script = Seq::new(old.len(), |i: int| Edit::Delete(old[i]));
    if old.len() > 0 {
        let init = old.drop_last();
        assert(script.drop_last() =~= Seq::new(init.len(), |i: int| Edit::Delete(init[i])));
        lemma_deletes(init);
        assert(init + seq![old.last()] =~= old);
    }
}

proof fn lemma_inserts(front: Seq<Edit>, new: Seq<Seq<char>>)
    ensures
        source(front + Seq::new(new.len(), |i: int| Edit::Insert(new[i]))) == source(front),
        target(front + Seq::new(new.len(), |i: int| Edit::Insert(new[i]))) == target(front) + new,
    decreases new.len(),
{
    let tail = Seq::new(new.len(), |i: int| Edit::Insert(new[i]));
    if new.len() > 0 {
        let init = new.drop_last();
        let tail_init = Seq::new(init.len(), |i: int| Edit::Insert(init[i]));
        assert((front + tail).drop_last() =~= front + tail_init);
        lemma_inserts(front, init);
        assert((target(front) + init) + seq![new.last()] =~= target(front) + new);
    } else {
        assert(front + tail =~= front);
        assert(target(front) + new =~= target(front));
    }
}

/// The diff lines of a hunk that turns the text `old` into the text `new`.
pub open spec fn rewriting(old: Seq<char>, new: Seq<char>) -> Seq<Op> {
    hunk(1, script_body(rewrite(pieces_of(old), pieces_of(new))))
}

/// For every two texts there is a diff that turns the first into the
/// second, and applying it to the first yields exactly the second.
pub proof fn round_trip_between(old: Seq<char>, new: Seq<char>)
    ensures
        flat(source(rewrite(pieces_of(old), pieces_of(new)))) == old,
        flat(target(rewrite(pieces_of(old), pieces_of(new)))) == new,
        patched_text(old, rewriting(old, new)) == Ok::<Seq<char>, Fault>(new),
{
    let from = pieces_of(old);
    let to = pieces_of(new);
    let deletes = Seq::new(from.len(), |i: int| Edit::Delete(from[i]));
    lemma_deletes(from);
    lemma_inserts(deletes, to);
    assert(Seq::<Seq<char>>::empty() + to =~= to);
    lemma_pieces_proper(old);
    lemma_pieces_proper(new);
    lemma_flat_pieces(old);
    lemma_flat_pieces(new);
    round_trip(rewrite(from, to));
}

/// Whether a diff, as it is written, reads as the diff lines `ops`: it is
/// not empty, the pattern for hunk headers is in order, and its lines are
/// classified as `ops`.
pub open spec fn reads_as(diff: Seq<char>, ops: Seq<Op>) -> bool {
    &&& diff.len() > 0
    &&& regex_compile_error(HUNK_HEADER@) is None
    &&& diff_ops(diff_lines(diff)) == ops
}

/// A diff that is written for turning one text into another does so:
/// applied to the first text it gives exactly the second.
pub proof fn round_trip_of_diff(old: Seq<char>, new: Seq<char>, diff: Seq<char>)
    requires
        reads_as(diff, rewriting(old, new)),
    ensures
        patch_outcome(old, diff) == Ok::<Seq<char>, Seq<char>>(new),
{
    round_trip_between(old, new);
}

/// A diff of one hunk, as it is written, replaces exactly the lines of its
/// hunk and keeps the rest.
pub proof fn hunk_of_diff_replaces_its_lines(
    front: Seq<Seq<char>>,
    script: Seq<Edit>,
    rest: Seq<Seq<char>>,
    diff: Seq<char>,
)
    requires
        proper(front + source(script) + rest),
        proper(front + target(script) + rest),
        reads_as(diff, hunk((front.len() + 1) as nat, script_body(script))),
    ensures
        patch_outcome(flat(front + source(script) + rest), diff) == Ok::<Seq<char>, Seq<char>>(
            flat(front + target(script) + rest),
        ),
{
    hunk_replaces_its_lines(front, script, rest);
}

/// A diff of two hunks that do not overlap gives what the diff of the
/// first hunk and then the diff of the second give, the second written
/// for the line to which the first has moved its start.
pub proof fn hunks_compose_of_diffs(
    base: Seq<char>,
    both: Seq<char>,
    first: Seq<char>,
    second: Seq<char>,
    start1: nat,
    body1: Seq<Op>,
    start2: nat,
    body2: Seq<Op>,
)
    requires
        is_body(body1),
        is_body(body2),
        start1 + removals(body1) + contexts(body1) <= start2,
        reads_as(both, hunk(start1, body1) + hunk(start2, body2)),
        reads_as(first, hunk(start1, body1)),
        reads_as(second, hunk(moved_start(start2, body1), body2)),
    ensures
        patch_outcome(base, both) == match patch_outcome(base, first) {
            Ok(mid) => patch_outcome(mid, second),
            Err(why) => Err(why),
        },
{
    hunks_compose(base, start1, body1, start2, body2);
}

} // verus!
