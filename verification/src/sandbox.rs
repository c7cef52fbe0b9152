//! The confinement root, and which file names stay beneath it.

use vstd::prelude::*;
use crate::text::{push_text, to_chars};

verus! {

/// Whether a character parts the components of a file name.
pub open spec fn is_separator(c: char) -> bool {
    c == '/' || c == '\\'
}

/// Whether a file name starts at a root of the file system: it begins
/// with a separator, or its second character is the colon of a drive.
pub open spec fn is_absolute(name: Seq<char>) -> bool {
    (name.len() > 0 && is_separator(name[0])) || (name.len() > 1 && name[1] == ':')
}

/// The depth beneath the confinement root after the component `part` has
/// been entered at depth `depth`: an empty component and `.` stay, `..`
/// goes up by one, any other component goes down by one. `None` if the
/// component leaves the root.
pub open spec fn enter(part: Seq<char>, depth: nat) -> Option<nat> {
    if part.len() == 0 || part == seq!['.'] {
        Some(depth)
    } else if part == seq!['.', '.'] {
        if depth == 0 {
            None
        } else {
            Some((depth - 1) as nat)
        }
    } else {
        Some(depth + 1)
    }
}

/// The depth beneath the confinement root to which the rest `s` of a file
/// name leads, from depth `depth` and after the unfinished component
/// `part`. `None` if the name leaves the root on its way.
pub open spec fn depth_after(s: Seq<char>, part: Seq<char>, depth: nat) -> Option<nat>
    decreases s.len(),
{
    if s.len() == 0 {
        enter(part, depth)
    } else if is_separator(s[0]) {
        match enter(part, depth) {
            Some(d) => depth_after(s.skip(1), Seq::empty(), d),
            None => None,
        }
    } else {
        depth_after(s.skip(1), part.push(s[0]), depth)
    }
}

/// Whether a file name stays beneath the confinement root: it does not
/// start at a root of the file system, and none of its components leads
/// above the confinement root.
pub open spec fn stays_beneath(name: Seq<char>) -> bool {
    !is_absolute(name) && depth_after(name, Seq::empty(), 0) is Some
}

fn enter_part(part: &Vec<char>, depth: usize) -> (r: Option<usize>)
    requires
        depth + part@.len() <= usize::MAX,
    ensures
        match r {
            Some(d) => enter(part@, depth as nat) == Some(d as nat),
            None => enter(part@, depth as nat) is None,
        },
{
    if part.len() == 0 {
        Some(depth)
    } else if part.len() == 1 && part[0] == '.' {
        assert(part@ =~= seq!['.']);
        Some(depth)
    } else if part.len() == 2 && part[0] == '.' && part[1] == '.' {
        assert(part@ =~= seq!['.', '.']);
        if depth == 0 {
            None
        } else {
            Some(depth - 1)
        }
    } else {
        proof {
            if part@ == seq!['.'] {
                assert(part@.len() == 1 && part@[0] == '.');
            }
            if part@ == seq!['.', '.'] {
                assert(part@.len() == 2 && part@[0] == '.' && part@[1] == '.');
            }
        }
        Some(depth + 1)
    }
}

/// Decides whether a file name stays beneath the confinement root.
pub fn beneath_root(filename: &str) -> (ok: bool)
    ensures
        ok == stays_beneath(filename@),
{
    let v = to_chars(filename);
    if v.len() > 0 && (v[0] == '/' || v[0] == '\\') {
        return false;
    }
    if v.len() > 1 && v[1] == ':' {
        return false;
    }
    let mut part: Vec<char> = Vec::new();
    let mut depth: usize = 0;
    let mut i: usize = 0;
    assert(v@.skip(0) =~= v@);
    while i < v.len()
        invariant
            i <= v.len(),
            v@ == filename@,
            depth + part@.len() <= i,
            depth_after(v@.skip(i as int), part@, depth as nat) == depth_after(
                v@,
                Seq::empty(),
                0,
            ),
        decreases v.len() - i,
    {
        let ghost rest = v@.skip(i as int);
        assert(rest[0] == v@[i as int]);
        assert(rest.skip(1) =~= v@.skip(i + 1));
        if v[i] == '/' || v[i] == '\\' {
            match enter_part(&part, depth) {
                Some(d) => {
                    depth = d;
                    part = Vec::new();
                },
                None => {
                    return false;
                },
            }
        } else {
            part.push(v[i]);
        }
        i += 1;
    }
    enter_part(&part, depth).is_some()
}

/// What is answered for a file name that does not stay beneath the
/// confinement root.
pub open spec fn outside_text(filename: Seq<char>) -> Seq<char> {
    "Filename '"@ + filename + "' is outside the sandbox"@
}

/// Words the answer for a file name that does not stay beneath the
/// confinement root.
pub fn outside_message(filename: &str) -> (s: String)
    ensures
        s@ == outside_text(filename@),
{
    let mut s = String::new();
    push_text(&mut s, "Filename '");
    push_text(&mut s, filename);
    push_text(&mut s, "' is outside the sandbox");
    s
}

} // verus!
