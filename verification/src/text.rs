//! Text as sequences of characters: conversions between `str`, `String` and
//! `Vec<char>`, lines, joining, decimal numbers and trimming.
//!
//! Contracts in this crate speak of a string through its view, a `Seq<char>`.

use vstd::prelude::*;

verus! {

/// `String::push` appends one character to the end of the string.
pub assume_specification[ String::push ](s: &mut String, ch: char)
    ensures
        final(s)@ == old(s)@.push(ch),
;

/// The views of a sequence of strings, one `Seq<char>` per string.
pub open spec fn texts(v: Seq<String>) -> Seq<Seq<char>> {
    Seq::new(v.len(), |i: int| v[i]@)
}

/// The view of an optional string.
pub open spec fn option_text(o: Option<String>) -> Option<Seq<char>> {
    match o {
        Some(s) => Some(s@),
        None => None,
    }
}

/// The view of an optional string slice.
pub open spec fn option_str(o: Option<&str>) -> Option<Seq<char>> {
    match o {
        Some(s) => Some(s@),
        None => None,
    }
}

/// The characters of `s`, in order.
pub fn to_chars(s: &str) -> (v: Vec<char>)
    ensures
        v@ == s@,
{
    broadcast use vstd::string::group_string_axioms;

    let mut v: Vec<char> = Vec::new();
    for c in it: s.chars()
        invariant
            it.seq() == s@,
            v@ == s@.take(it.index()),
    {
        v.push(c);
        assert(s@.take(it.index() + 1) == s@.take(it.index()).push(s@[it.index()]));
    }
    assert(s@.take(s@.len() as int) == s@);
    v
}

/// Appends the characters `v[from..to]` to `s`.
pub fn push_range(s: &mut String, v: &Vec<char>, from: usize, to: usize)
    requires
        from <= to <= v.len(),
    ensures
        final(s)@ == old(s)@ + v@.subrange(from as int, to as int),
{
    let mut i: usize = from;
    while i < to
        invariant
            from <= i <= to <= v.len(),
            s@ == old(s)@ + v@.subrange(from as int, i as int),
        decreases to - i,
    {
        s.push(v[i]);
        i += 1;
        assert(v@.subrange(from as int, i as int) == v@.subrange(from as int, i - 1).push(
            v@[i - 1],
        ));
    }
}

/// The string made of the characters of `v`, in order.
pub fn from_chars(v: &Vec<char>) -> (s: String)
    ensures
        s@ == v@,
{
    let mut s = String::new();
    push_range(&mut s, v, 0, v.len());
    assert(v@.subrange(0, v@.len() as int) == v@);
    s
}

/// Appends the characters of `t` to `s`.
pub fn push_text(s: &mut String, t: &str)
    ensures
        final(s)@ == old(s)@ + t@,
{
    let v = to_chars(t);
    push_range(s, &v, 0, v.len());
    assert(v@.subrange(0, v@.len() as int) == v@);
}

/// Whether two strings hold the same characters.
pub fn text_eq(a: &str, b: &str) -> (r: bool)
    ensures
        r == (a@ == b@),
{
    let x = to_chars(a);
    let y = to_chars(b);
    if x.len() != y.len() {
        return false;
    }
    let mut i: usize = 0;
    while i < x.len()
        invariant
            i <= x.len(),
            x.len() == y.len(),
            x@ == a@,
            y@ == b@,
            forall|j: int| 0 <= j < i ==> x@[j] == y@[j],
        decreases x.len() - i,
    {
        if x[i] != y[i] {
            assert(a@[i as int] != b@[i as int]);
            return false;
        }
        i += 1;
    }
    assert(x@ =~= y@);
    true
}

/// Whether `s` begins with `prefix`.
pub open spec fn starts_with(s: Seq<char>, prefix: Seq<char>) -> bool {
    prefix.len() <= s.len() && s.take(prefix.len() as int) == prefix
}

/// Decides `starts_with` on character vectors.
pub fn has_prefix(s: &Vec<char>, prefix: &Vec<char>) -> (b: bool)
    ensures
        b == starts_with(s@, prefix@),
{
    if prefix.len() > s.len() {
        return false;
    }
    let mut i: usize = 0;
    while i < prefix.len()
        invariant
            i <= prefix.len() <= s.len(),
            forall|j: int| 0 <= j < i ==> s@[j] == prefix@[j],
        decreases prefix.len() - i,
    {
        if s[i] != prefix[i] {
            assert(s@.take(prefix@.len() as int)[i as int] != prefix@[i as int]);
            return false;
        }
        i += 1;
    }
    assert(s@.take(prefix@.len() as int) =~= prefix@);
    true
}

/// The first position at which `c` occurs in `s`, or `s.len()` if it does not.
pub open spec fn index_of(s: Seq<char>, c: char) -> int
    decreases s.len(),
{
    if s.len() == 0 {
        0
    } else if s[0] == c {
        0
    } else {
        1 + index_of(s.skip(1), c)
    }
}

/// `index_of` is the one position that holds `c` with no `c` before it.
pub proof fn lemma_index_of(s: Seq<char>, c: char, k: int)
    requires
        0 <= k <= s.len(),
        forall|j: int| 0 <= j < k ==> s[j] != c,
        k < s.len() ==> s[k] == c,
    ensures
        index_of(s, c) == k,
    decreases s.len(),
{
    if s.len() == 0 {
    } else if k == 0 {
    } else {
        assert(s[0] != c);
        let t = s.skip(1);
        assert forall|j: int| 0 <= j < k - 1 implies t[j] != c by {
            assert(t[j] == s[j + 1]);
        }
        lemma_index_of(t, c, k - 1);
    }
}

/// A line without the carriage return that may end it.
pub open spec fn strip_cr(line: Seq<char>) -> Seq<char> {
    if line.len() > 0 && line.last() == '\r' {
        line.drop_last()
    } else {
        line
    }
}

/// The lines of a text. A line ends at a line feed, which is dropped together
/// with a carriage return just before it; what follows the last line feed is a
/// line too unless it is empty.
pub open spec fn lines_of(s: Seq<char>) -> Seq<Seq<char>>
    decreases s.len(),
{
    if s.len() == 0 {
        Seq::empty()
    } else {
        let k = index_of(s, '\n');
        if 0 <= k < s.len() {
            seq![strip_cr(s.take(k))] + lines_of(s.skip(k + 1))
        } else {
            seq![s]
        }
    }
}

/// Unfolds `lines_of` at a line feed that is the first one at or after `start`.
proof fn lemma_lines_step(s: Seq<char>, start: int, i: int)
    requires
        0 <= start <= i < s.len(),
        s[i] == '\n',
        forall|j: int| start <= j < i ==> s[j] != '\n',
    ensures
        lines_of(s.skip(start)) == seq![strip_cr(s.subrange(start, i))] + lines_of(s.skip(i + 1)),
{
    let r = s.skip(start);
    assert forall|j: int| 0 <= j < i - start implies r[j] != '\n' by {
        assert(r[j] == s[start + j]);
    }
    lemma_index_of(r, '\n', i - start);
    assert(r.take(i - start) =~= s.subrange(start, i));
    assert(r.skip(i - start + 1) =~= s.skip(i + 1));
}

/// Unfolds `lines_of` on a tail that holds no line feed.
proof fn lemma_lines_last(s: Seq<char>, start: int)
    requires
        0 <= start <= s.len(),
        forall|j: int| start <= j < s.len() ==> s[j] != '\n',
    ensures
        lines_of(s.skip(start)) == if start < s.len() {
            seq![s.skip(start)]
        } else {
            Seq::<Seq<char>>::empty()
        },
{
    let r = s.skip(start);
    if start < s.len() {
        assert forall|j: int| 0 <= j < r.len() implies r[j] != '\n' by {
            assert(r[j] == s[start + j]);
        }
        lemma_index_of(r, '\n', r.len() as int);
    }
}

/// Splits a text into its lines.
pub fn split_lines(text: &str) -> (out: Vec<String>)
    ensures
        texts(out@) == lines_of(text@),
{
    let v = to_chars(text);
    let n = v.len();
    let mut out: Vec<String> = Vec::new();
    let mut start: usize = 0;
    let mut i: usize = 0;
    assert(v@.skip(0) == v@);
    while i < n
        invariant
            n == v.len(),
            start <= i <= n,
            forall|j: int| start <= j < i ==> v@[j] != '\n',
            texts(out@) + lines_of(v@.skip(start as int)) == lines_of(v@),
        decreases n - i,
    {
        if v[i] == '\n' {
            let mut end: usize = i;
            if end > start && v[end - 1] == '\r' {
                end = end - 1;
            }
            let mut line = String::new();
            push_range(&mut line, &v, start, end);
            proof {
                lemma_lines_step(v@, start as int, i as int);
                let whole = v@.subrange(start as int, i as int);
                assert(line@ == strip_cr(whole)) by {
                    if i > start && v@[i - 1] == '\r' {
                        assert(whole.last() == '\r');
                        assert(whole.drop_last() =~= v@.subrange(start as int, end as int));
                    } else {
                        assert(whole =~= v@.subrange(start as int, end as int));
                        if whole.len() > 0 {
                            assert(whole.last() == v@[i - 1]);
                        }
                    }
                }
                assert(texts(out@.push(line)) =~= texts(out@) + seq![line@]);
            }
            out.push(line);
            start = i + 1;
        }
        i += 1;
    }
    proof {
        lemma_lines_last(v@, start as int);
    }
    if start < n {
        let mut line = String::new();
        push_range(&mut line, &v, start, n);
        proof {
            assert(v@.subrange(start as int, n as int) =~= v@.skip(start as int));
            assert(texts(out@.push(line)) =~= texts(out@) + seq![line@]);
        }
        out.push(line);
    } else {
        assert(texts(out@) + Seq::<Seq<char>>::empty() =~= texts(out@));
    }
    out
}

/// The parts put one after another with `sep` between neighbours.
pub open spec fn join(parts: Seq<Seq<char>>, sep: Seq<char>) -> Seq<char>
    decreases parts.len(),
{
    if parts.len() == 0 {
        Seq::empty()
    } else if parts.len() == 1 {
        parts[0]
    } else {
        join(parts.drop_last(), sep) + sep + parts.last()
    }
}

/// Joins strings with a separator.
pub fn join_strings(parts: &Vec<String>, sep: &str) -> (s: String)
    ensures
        s@ == join(texts(parts@), sep@),
{
    let mut s = String::new();
    let mut i: usize = 0;
    while i < parts.len()
        invariant
            i <= parts.len(),
            s@ == join(texts(parts@).take(i as int), sep@),
        decreases parts.len() - i,
    {
        if i > 0 {
            push_text(&mut s, sep);
        }
        push_text(&mut s, parts[i].as_str());
        proof {
            let all = texts(parts@);
            let next = all.take(i + 1);
            assert(next.drop_last() =~= all.take(i as int));
            assert(next.last() == parts@[i as int]@);
            if i == 0 {
                assert(s@ =~= parts@[0]@);
            }
        }
        i += 1;
    }
    assert(texts(parts@).take(parts@.len() as int) =~= texts(parts@));
    s
}

/// The character that stands for a decimal digit.
pub open spec fn digit_char(d: int) -> char {
    if d == 0 {
        '0'
    } else if d == 1 {
        '1'
    } else if d == 2 {
        '2'
    } else if d == 3 {
        '3'
    } else if d == 4 {
        '4'
    } else if d == 5 {
        '5'
    } else if d == 6 {
        '6'
    } else if d == 7 {
        '7'
    } else if d == 8 {
        '8'
    } else {
        '9'
    }
}

/// A natural number written in decimal, without leading zeros.
pub open spec fn decimal(n: nat) -> Seq<char>
    decreases n,
{
    if n < 10 {
        seq![digit_char(n as int)]
    } else {
        decimal(n / 10) + seq![digit_char((n % 10) as int)]
    }
}

fn digit(d: u8) -> (c: char)
    requires
        d < 10,
    ensures
        c == digit_char(d as int),
{
    if d == 0 {
        '0'
    } else if d == 1 {
        '1'
    } else if d == 2 {
        '2'
    } else if d == 3 {
        '3'
    } else if d == 4 {
        '4'
    } else if d == 5 {
        '5'
    } else if d == 6 {
        '6'
    } else if d == 7 {
        '7'
    } else if d == 8 {
        '8'
    } else {
        '9'
    }
}

/// Appends `n` in decimal to `s`.
pub fn push_decimal(s: &mut String, n: u128)
    ensures
        final(s)@ == old(s)@ + decimal(n as nat),
    decreases n,
{
    if n >= 10 {
        push_decimal(s, n / 10);
    }
    s.push(digit((n % 10) as u8));
    proof {
        let d = seq![digit_char((n % 10) as int)];
        if n >= 10 {
            assert(s@ =~= old(s)@ + (decimal((n / 10) as nat) + d));
        } else {
            assert(s@ =~= old(s)@ + d);
        }
    }
}

/// Whether Unicode counts `c` as white space: the characters with the
/// property White_Space.
pub open spec fn white_space(c: char) -> bool {
    let n = c as int;
    ||| 0x09 <= n <= 0x0D
    ||| n == 0x20
    ||| n == 0x85
    ||| n == 0xA0
    ||| n == 0x1680
    ||| 0x2000 <= n <= 0x200A
    ||| n == 0x2028
    ||| n == 0x2029
    ||| n == 0x202F
    ||| n == 0x205F
    ||| n == 0x3000
}

/// Decides whether Unicode counts `c` as white space.
pub fn is_whitespace(c: char) -> (r: bool)
    ensures
        r == white_space(c),
{
    let n: u32 = c as u32;
    (0x09 <= n && n <= 0x0D) || n == 0x20 || n == 0x85 || n == 0xA0 || n == 0x1680 || (0x2000 <= n
        && n <= 0x200A) || n == 0x2028 || n == 0x2029 || n == 0x202F || n == 0x205F || n
        == 0x3000
}

/// `s` without the white space it begins with.
pub open spec fn trim_start(s: Seq<char>) -> Seq<char>
    decreases s.len(),
{
    if s.len() > 0 && white_space(s[0]) {
        trim_start(s.skip(1))
    } else {
        s
    }
}

/// `s` without the white space it ends with.
pub open spec fn trim_end(s: Seq<char>) -> Seq<char>
    decreases s.len(),
{
    if s.len() > 0 && white_space(s.last()) {
        trim_end(s.drop_last())
    } else {
        s
    }
}

/// `s` without the white space at either end.
pub open spec fn trim(s: Seq<char>) -> Seq<char> {
    trim_end(trim_start(s))
}

/// The position after the white space that `v` begins with.
fn skip_white(v: &Vec<char>) -> (i: usize)
    ensures
        i <= v.len(),
        i < v.len() ==> !white_space(v@[i as int]),
        trim_start(v@) == v@.skip(i as int),
{
    let mut i: usize = 0;
    assert(v@.skip(0) =~= v@);
    while i < v.len() && is_whitespace(v[i])
        invariant
            i <= v.len(),
            trim_start(v@) == trim_start(v@.skip(i as int)),
        decreases v.len() - i,
    {
        assert(v@.skip(i as int)[0] == v@[i as int]);
        assert(v@.skip(i as int).skip(1) =~= v@.skip(i + 1));
        i += 1;
    }
    proof {
        if i < v.len() {
            assert(v@.skip(i as int)[0] == v@[i as int]);
        }
    }
    i
}

/// The position before the white space that `v[from..]` ends with.
fn back_over_white(v: &Vec<char>, from: usize) -> (j: usize)
    requires
        from <= v.len(),
    ensures
        from <= j <= v.len(),
        trim_end(v@.skip(from as int)) == v@.subrange(from as int, j as int),
{
    let mut j: usize = v.len();
    assert(v@.subrange(from as int, v@.len() as int) =~= v@.skip(from as int));
    while j > from && is_whitespace(v[j - 1])
        invariant
            from <= j <= v.len(),
            trim_end(v@.skip(from as int)) == trim_end(v@.subrange(from as int, j as int)),
        decreases j,
    {
        assert(v@.subrange(from as int, j as int).last() == v@[j - 1]);
        assert(v@.subrange(from as int, j as int).drop_last() =~= v@.subrange(
            from as int,
            j - 1,
        ));
        j -= 1;
    }
    proof {
        if j > from {
            assert(v@.subrange(from as int, j as int).last() == v@[j - 1]);
        }
    }
    j
}

/// Removes the white space at both ends of a text.
pub fn trimmed(text: &str) -> (r: String)
    ensures
        r@ == trim(text@),
{
    let v = to_chars(text);
    let i = skip_white(&v);
    let j = back_over_white(&v, i);
    let mut r = String::new();
    push_range(&mut r, &v, i, j);
    r
}

/// Removes the white space at the end of a text.
pub fn trimmed_end(text: &str) -> (r: String)
    ensures
        r@ == trim_end(text@),
{
    let v = to_chars(text);
    assert(v@.skip(0) =~= v@);
    let j = back_over_white(&v, 0);
    let mut r = String::new();
    push_range(&mut r, &v, 0, j);
    r
}

/// Whether a text holds nothing but white space.
pub fn is_blank(text: &str) -> (b: bool)
    ensures
        b == (trim(text@).len() == 0),
{
    let v = to_chars(text);
    let i = skip_white(&v);
    proof {
        if i < v.len() {
            let rest = v@.skip(i as int);
            assert(rest[0] == v@[i as int]);
            lemma_trim_end_keeps_head(rest);
        }
    }
    i == v.len()
}

/// Trimming the end of a text that does not begin with white space leaves
/// something.
proof fn lemma_trim_end_keeps_head(s: Seq<char>)
    requires
        s.len() > 0,
        !white_space(s[0]),
    ensures
        trim_end(s).len() > 0,
    decreases s.len(),
{
    if white_space(s.last()) {
        assert(s.len() > 1);
        assert(s.drop_last()[0] == s[0]);
        lemma_trim_end_keeps_head(s.drop_last());
    }
}

/// `s` with Unix line ends: a carriage return and a line feed that follows it
/// become one line feed, and every other carriage return becomes a line feed.
pub open spec fn unix_line_ends(s: Seq<char>) -> Seq<char>
    decreases s.len(),
{
    if s.len() == 0 {
        s
    } else if s[0] == '\r' {
        if s.len() > 1 && s[1] == '\n' {
            seq!['\n'] + unix_line_ends(s.skip(2))
        } else {
            seq!['\n'] + unix_line_ends(s.skip(1))
        }
    } else {
        seq![s[0]] + unix_line_ends(s.skip(1))
    }
}

/// Rewrites a text with Unix line ends.
pub fn to_unix_line_ends(text: &str) -> (r: String)
    ensures
        r@ == unix_line_ends(text@),
{
    let v = to_chars(text);
    let mut r = String::new();
    let mut i: usize = 0;
    assert(v@.skip(0) =~= v@);
    while i < v.len()
        invariant
            i <= v.len(),
            v@ == text@,
            r@ + unix_line_ends(v@.skip(i as int)) == unix_line_ends(v@),
        decreases v.len() - i,
    {
        let ghost rest = v@.skip(i as int);
        let ghost before = r@;
        assert(rest[0] == v@[i as int]);
        if v[i] == '\r' {
            r.push('\n');
            if i + 1 < v.len() && v[i + 1] == '\n' {
                assert(rest[1] == v@[i + 1]);
                assert(rest.skip(2) =~= v@.skip(i + 2));
                assert(r@ + unix_line_ends(v@.skip(i + 2)) =~= before + unix_line_ends(rest));
                i += 2;
            } else {
                proof {
                    if rest.len() > 1 {
                        assert(rest[1] == v@[i + 1]);
                    }
                }
                assert(rest.skip(1) =~= v@.skip(i + 1));
                assert(r@ + unix_line_ends(v@.skip(i + 1)) =~= before + unix_line_ends(rest));
                i += 1;
            }
        } else {
            r.push(v[i]);
            assert(rest.skip(1) =~= v@.skip(i + 1));
            assert(r@ + unix_line_ends(v@.skip(i + 1)) =~= before + unix_line_ends(rest));
            i += 1;
        }
    }
    assert(r@ + Seq::<char>::empty() =~= r@);
    r
}

/// `s` in lower case, as `str::to_lowercase` gives it.
pub uninterp spec fn lowercase(s: Seq<char>) -> Seq<char>;

/// `str::to_lowercase`, which gives the lower case equivalent of a string.
#[verifier::external_body]
pub(crate) fn to_lowercase(s: &str) -> (r: String)
    ensures
        r@ == lowercase(s@),
{
    s.to_lowercase()
}

/// The words of `s` that follow the unfinished word `word`: reading from
/// the left, white space ends a word, and any other character goes on with
/// it.
pub open spec fn words_after(s: Seq<char>, word: Seq<char>) -> Seq<Seq<char>>
    decreases s.len(),
{
    let done = if word.len() > 0 {
        seq![word]
    } else {
        Seq::<Seq<char>>::empty()
    };
    if s.len() == 0 {
        done
    } else if white_space(s[0]) {
        done + words_after(s.skip(1), Seq::empty())
    } else {
        words_after(s.skip(1), word.push(s[0]))
    }
}

/// The words of a text: its longest stretches without white space.
pub open spec fn words_of(s: Seq<char>) -> Seq<Seq<char>> {
    words_after(s, Seq::empty())
}

/// Splits a text into its words.
pub fn split_words(text: &str) -> (out: Vec<String>)
    ensures
        texts(out@) == words_of(text@),
{
    let v = to_chars(text);
    let mut out: Vec<String> = Vec::new();
    let mut word = String::new();
    let mut i: usize = 0;
    assert(v@.skip(0) =~= v@);
    assert(texts(out@) + words_of(v@) =~= words_of(v@));
    while i < v.len()
        invariant
            i <= v.len(),
            v@ == text@,
            texts(out@) + words_after(v@.skip(i as int), word@) == words_of(v@),
        decreases v.len() - i,
    {
        let ghost rest = v@.skip(i as int);
        let ghost before = out@;
        let ghost unfinished = word@;
        assert(rest[0] == v@[i as int]);
        assert(rest.skip(1) =~= v@.skip(i + 1));
        if is_whitespace(v[i]) {
            if !word.as_str().is_empty() {
                out.push(word);
                assert(texts(out@) =~= texts(before) + seq![unfinished]);
                word = String::new();
            } else {
                assert(unfinished =~= Seq::<char>::empty());
            }
            assert(texts(out@) + words_after(v@.skip(i + 1), Seq::empty()) =~= texts(before)
                + words_after(rest, unfinished));
        } else {
            word.push(v[i]);
        }
        i += 1;
    }
    let ghost before = out@;
    let ghost unfinished = word@;
    if !word.as_str().is_empty() {
        out.push(word);
        assert(texts(out@) =~= texts(before) + seq![unfinished]);
    } else {
        assert(texts(before) + Seq::<Seq<char>>::empty() =~= texts(before));
    }
    out
}

/// Whether `a` comes before `b` in the order of the dictionary, character
/// by character.
pub open spec fn text_less(a: Seq<char>, b: Seq<char>) -> bool
    decreases a.len(),
{
    if b.len() == 0 {
        false
    } else if a.len() == 0 {
        true
    } else if a[0] != b[0] {
        a[0] < b[0]
    } else {
        text_less(a.skip(1), b.skip(1))
    }
}

/// Decides whether `a` comes before `b`.
pub fn comes_before(a: &str, b: &str) -> (r: bool)
    ensures
        r == text_less(a@, b@),
{
    let x = to_chars(a);
    let y = to_chars(b);
    let mut i: usize = 0;
    assert(x@.skip(0) =~= x@);
    assert(y@.skip(0) =~= y@);
    while i < x.len() && i < y.len()
        invariant
            i <= x.len(),
            i <= y.len(),
            x@ == a@,
            y@ == b@,
            text_less(a@, b@) == text_less(x@.skip(i as int), y@.skip(i as int)),
        decreases x.len() - i,
    {
        assert(x@.skip(i as int)[0] == x@[i as int]);
        assert(y@.skip(i as int)[0] == y@[i as int]);
        if x[i] != y[i] {
            return x[i] < y[i];
        }
        assert(x@.skip(i as int).skip(1) =~= x@.skip(i + 1));
        assert(y@.skip(i as int).skip(1) =~= y@.skip(i + 1));
        i += 1;
    }
    i < y.len()
}

/// Whether a piece of text ends with a line feed.
pub open spec fn ends_line(p: Seq<char>) -> bool {
    p.len() > 0 && p.last() == '\n'
}

/// A piece of text without the line feed that may end it.
pub open spec fn bare(p: Seq<char>) -> Seq<char> {
    if ends_line(p) {
        p.drop_last()
    } else {
        p
    }
}

/// A piece of text with a line feed at its end, added if it has none.
pub open spec fn closed(p: Seq<char>) -> Seq<char> {
    if ends_line(p) {
        p
    } else {
        p.push('\n')
    }
}

/// The pieces of a text: every line together with the line feed that ends
/// it, and what follows the last line feed, unless that is empty. Nothing
/// of the text is left out: a carriage return before a line feed stays in
/// its piece.
pub open spec fn pieces_of(s: Seq<char>) -> Seq<Seq<char>>
    decreases s.len(),
{
    if s.len() == 0 {
        Seq::empty()
    } else {
        let k = index_of(s, '\n');
        if 0 <= k < s.len() {
            seq![s.take(k + 1)] + pieces_of(s.skip(k + 1))
        } else {
            seq![s]
        }
    }
}

/// The pieces put one after another.
pub open spec fn flat(pieces: Seq<Seq<char>>) -> Seq<char>
    decreases pieces.len(),
{
    if pieces.len() == 0 {
        Seq::empty()
    } else {
        flat(pieces.drop_last()) + pieces.last()
    }
}

/// The pieces put one after another, each with a line feed at its end.
pub open spec fn closed_flat(pieces: Seq<Seq<char>>) -> Seq<char>
    decreases pieces.len(),
{
    if pieces.len() == 0 {
        Seq::empty()
    } else {
        closed_flat(pieces.drop_last()) + closed(pieces.last())
    }
}

/// The text made of lines that carry their own line ends: the lines one
/// after another, as they are. Only a line that is not the last and has no
/// line feed at its end is given one, so that the line after it stays a
/// line of its own.
pub open spec fn assemble(lines: Seq<Seq<char>>) -> Seq<char> {
    if lines.len() == 0 {
        Seq::empty()
    } else {
        closed_flat(lines.drop_last()) + lines.last()
    }
}

/// Whether a piece is one line: it is not empty and holds no line feed
/// except at its end.
pub open spec fn is_line(p: Seq<char>) -> bool {
    p.len() > 0 && forall|i: int| 0 <= i < p.len() - 1 ==> p[i] != '\n'
}

/// Whether the pieces are the lines of a text: each is one line, and each
/// but the last ends with a line feed.
pub open spec fn proper(pieces: Seq<Seq<char>>) -> bool {
    forall|i: int|
        0 <= i < pieces.len() ==> is_line(#[trigger] pieces[i]) && (i < pieces.len() - 1
            ==> ends_line(pieces[i]))
}

/// Whether every piece is one line, with or without its line end.
pub open spec fn all_lines(pieces: Seq<Seq<char>>) -> bool {
    forall|i: int| 0 <= i < pieces.len() ==> is_line(#[trigger] pieces[i])
}

/// The lines with a line feed at the end of each but the last: a line that
/// another line follows is given the line feed that it lacks.
pub open spec fn settled(lines: Seq<Seq<char>>) -> Seq<Seq<char>> {
    Seq::new(
        lines.len(),
        |i: int|
            if i < lines.len() - 1 {
                closed(lines[i])
            } else {
                lines[i]
            },
    )
}

/// Unfolds `pieces_of` at a line feed that is the first one at or after
/// `start`.
proof fn lemma_pieces_step(s: Seq<char>, start: int, i: int)
    requires
        0 <= start <= i < s.len(),
        s[i] == '\n',
        forall|j: int| start <= j < i ==> s[j] != '\n',
    ensures
        pieces_of(s.skip(start)) == seq![s.subrange(start, i + 1)] + pieces_of(s.skip(i + 1)),
{
    let r = s.skip(start);
    assert forall|j: int| 0 <= j < i - start implies r[j] != '\n' by {
        assert(r[j] == s[start + j]);
    }
    lemma_index_of(r, '\n', i - start);
    assert(r.take(i - start + 1) =~= s.subrange(start, i + 1));
    assert(r.skip(i - start + 1) =~= s.skip(i + 1));
}

/// Unfolds `pieces_of` on a tail that holds no line feed.
proof fn lemma_pieces_last(s: Seq<char>, start: int)
    requires
        0 <= start <= s.len(),
        forall|j: int| start <= j < s.len() ==> s[j] != '\n',
    ensures
        pieces_of(s.skip(start)) == if start < s.len() {
            seq![s.skip(start)]
        } else {
            Seq::<Seq<char>>::empty()
        },
{
    let r = s.skip(start);
    if start < s.len() {
        assert forall|j: int| 0 <= j < r.len() implies r[j] != '\n' by {
            assert(r[j] == s[start + j]);
        }
        lemma_index_of(r, '\n', r.len() as int);
    }
}

/// `index_of` lies within the text, at a place that holds the character,
/// with none before it.
pub proof fn lemma_index_of_found(s: Seq<char>, c: char)
    ensures
        0 <= index_of(s, c) <= s.len(),
        index_of(s, c) < s.len() ==> s[index_of(s, c)] == c,
        forall|j: int| 0 <= j < index_of(s, c) ==> s[j] != c,
    decreases s.len(),
{
    if s.len() == 0 || s[0] == c {
    } else {
        let t = s.skip(1);
        lemma_index_of_found(t, c);
        assert forall|j: int| 0 <= j < index_of(s, c) implies s[j] != c by {
            if j > 0 {
                assert(t[j - 1] == s[j]);
            }
        }
        if index_of(s, c) < s.len() {
            assert(t[index_of(t, c)] == s[index_of(s, c)]);
        }
    }
}

/// One piece is flat as it is.
pub proof fn lemma_flat_one(p: Seq<char>)
    ensures
        flat(seq![p]) == p,
{
    let one = seq![p];
    assert(one.drop_last() =~= Seq::<Seq<char>>::empty());
    assert(flat(one.drop_last()) =~= Seq::<char>::empty());
    assert(flat(one) =~= p);
}

/// Putting pieces one after another goes piece by piece from the front
/// too.
pub proof fn lemma_flat_front(first: Seq<char>, rest: Seq<Seq<char>>)
    ensures
        flat(seq![first] + rest) == first + flat(rest),
    decreases rest.len(),
{
    let all = seq![first] + rest;
    if rest.len() == 0 {
        assert(all =~= seq![first]);
        lemma_flat_one(first);
        assert(first + flat(rest) =~= first);
    } else {
        assert(all.drop_last() =~= seq![first] + rest.drop_last());
        assert(all.last() == rest.last());
        lemma_flat_front(first, rest.drop_last());
        assert(flat(all) =~= first + flat(rest));
    }
}

/// The pieces of a text, one after another, are the text.
pub proof fn lemma_flat_pieces(s: Seq<char>)
    ensures
        flat(pieces_of(s)) == s,
    decreases s.len(),
{
    if s.len() == 0 {
    } else {
        lemma_index_of_found(s, '\n');
        let k = index_of(s, '\n');
        if k < s.len() {
            lemma_flat_pieces(s.skip(k + 1));
            lemma_flat_front(s.take(k + 1), pieces_of(s.skip(k + 1)));
            assert(s.take(k + 1) + s.skip(k + 1) =~= s);
        } else {
            lemma_flat_one(s);
        }
    }
}

/// The pieces of a text are its lines.
pub proof fn lemma_pieces_proper(s: Seq<char>)
    ensures
        proper(pieces_of(s)),
    decreases s.len(),
{
    if s.len() == 0 {
    } else {
        lemma_index_of_found(s, '\n');
        let k = index_of(s, '\n');
        if k < s.len() {
            let first = s.take(k + 1);
            let rest = pieces_of(s.skip(k + 1));
            lemma_pieces_proper(s.skip(k + 1));
            let all = seq![first] + rest;
            assert(is_line(first) && ends_line(first)) by {
                assert(first.last() == s[k]);
                assert forall|i: int| 0 <= i < first.len() - 1 implies first[i] != '\n' by {
                    assert(first[i] == s[i]);
                }
            }
            assert forall|i: int| 0 <= i < all.len() implies is_line(#[trigger] all[i]) && (i
                < all.len() - 1 ==> ends_line(all[i])) by {
                if i > 0 {
                    assert(all[i] == rest[i - 1]);
                }
            }
        } else {
            assert(is_line(s));
            assert(seq![s][0] == s);
        }
    }
}

/// Lines put one after another come apart into the same lines.
pub proof fn lemma_pieces_flat(pieces: Seq<Seq<char>>)
    requires
        proper(pieces),
    ensures
        pieces_of(flat(pieces)) == pieces,
    decreases pieces.len(),
{
    if pieces.len() == 0 {
        assert(pieces =~= Seq::<Seq<char>>::empty());
    } else {
        let first = pieces[0];
        let rest = pieces.skip(1);
        assert(pieces =~= seq![first] + rest);
        lemma_flat_front(first, rest);
        let s = flat(pieces);
        assert(s == first + flat(rest));
        assert(is_line(first));
        assert(proper(rest)) by {
            assert forall|i: int| 0 <= i < rest.len() implies is_line(#[trigger] rest[i]) && (i
                < rest.len() - 1 ==> ends_line(rest[i])) by {
                assert(rest[i] == pieces[i + 1]);
            }
        }
        if rest.len() > 0 {
            assert(ends_line(first));
            let k = first.len() - 1;
            assert forall|j: int| 0 <= j < k implies s[j] != '\n' by {
                assert(s[j] == first[j]);
            }
            assert(s[k] == first[k]);
            lemma_index_of(s, '\n', k);
            assert(s.take(k + 1) =~= first);
            assert(s.skip(k + 1) =~= flat(rest));
            lemma_pieces_flat(rest);
            assert(pieces_of(s) =~= seq![first] + rest);
        } else {
            assert(flat(rest) =~= Seq::<char>::empty());
            assert(s =~= first);
            if ends_line(first) {
                let k = first.len() - 1;
                lemma_index_of(s, '\n', k);
                assert(s.take(k + 1) =~= first);
                assert(s.skip(k + 1) =~= Seq::<char>::empty());
                assert(pieces_of(Seq::<char>::empty()) =~= Seq::<Seq<char>>::empty());
                assert(seq![first] + Seq::<Seq<char>>::empty() =~= pieces);
                assert(pieces_of(s) =~= pieces);
            } else {
                assert forall|j: int| 0 <= j < s.len() implies s[j] != '\n' by {
                    if j == s.len() - 1 {
                        assert(s.last() == s[j]);
                    }
                }
                lemma_index_of(s, '\n', s.len() as int);
                assert(seq![s] =~= pieces);
                assert(pieces_of(s) =~= pieces);
            }
        }
    }
}

/// Lines that end with a line feed need none added.
proof fn lemma_closed_flat(pieces: Seq<Seq<char>>)
    requires
        forall|i: int| 0 <= i < pieces.len() ==> ends_line(#[trigger] pieces[i]),
    ensures
        closed_flat(pieces) == flat(pieces),
    decreases pieces.len(),
{
    if pieces.len() > 0 {
        let init = pieces.drop_last();
        assert forall|i: int| 0 <= i < init.len() implies ends_line(#[trigger] init[i]) by {
            assert(init[i] == pieces[i]);
        }
        lemma_closed_flat(init);
        assert(ends_line(pieces[pieces.len() - 1]));
    }
}

/// The lines of a text are assembled as they are.
pub proof fn lemma_assemble_proper(pieces: Seq<Seq<char>>)
    requires
        proper(pieces),
    ensures
        assemble(pieces) == flat(pieces),
{
    if pieces.len() > 0 {
        let init = pieces.drop_last();
        assert forall|i: int| 0 <= i < init.len() implies ends_line(#[trigger] init[i]) by {
            assert(init[i] == pieces[i]);
        }
        lemma_closed_flat(init);
    }
}

/// Lines that are settled are the lines of a text.
pub proof fn lemma_settled_proper(lines: Seq<Seq<char>>)
    requires
        all_lines(lines),
    ensures
        proper(settled(lines)),
        all_lines(settled(lines)),
{
    let out = settled(lines);
    assert forall|i: int| 0 <= i < out.len() implies is_line(#[trigger] out[i]) && (i < out.len()
        - 1 ==> ends_line(out[i])) by {
        let p = lines[i];
        assert(is_line(p));
        if i < lines.len() - 1 && !ends_line(p) {
            let q = p.push('\n');
            assert(q.last() == '\n');
            assert forall|j: int| 0 <= j < q.len() - 1 implies q[j] != '\n' by {
                assert(q[j] == p[j]);
                if j == p.len() - 1 {
                    assert(p.last() == p[j]);
                }
            }
        }
    }
}

/// The lines of a text are settled as they are.
pub proof fn lemma_settled_of_proper(lines: Seq<Seq<char>>)
    requires
        proper(lines),
    ensures
        settled(lines) == lines,
{
    assert(settled(lines) =~= lines);
}

/// Settling twice is settling once.
pub proof fn lemma_settled_twice(lines: Seq<Seq<char>>)
    ensures
        settled(settled(lines)) == settled(lines),
{
    let once = settled(lines);
    assert forall|i: int| 0 <= i < once.len() implies settled(once)[i] == once[i] by {
        if i < lines.len() - 1 {
            let p = lines[i];
            if !ends_line(p) {
                assert(p.push('\n').last() == '\n');
            }
        }
    }
    assert(settled(once) =~= once);
}

proof fn lemma_closed_flat_settled(lines: Seq<Seq<char>>, k: int)
    requires
        0 <= k < lines.len(),
    ensures
        closed_flat(lines.take(k)) == flat(settled(lines).take(k)),
    decreases k,
{
    if k > 0 {
        lemma_closed_flat_settled(lines, k - 1);
        assert(lines.take(k).drop_last() =~= lines.take(k - 1));
        assert(settled(lines).take(k).drop_last() =~= settled(lines).take(k - 1));
        assert(lines.take(k).last() == lines[k - 1]);
        assert(settled(lines).take(k).last() == closed(lines[k - 1]));
    } else {
        assert(lines.take(0) =~= Seq::<Seq<char>>::empty());
        assert(settled(lines).take(0) =~= Seq::<Seq<char>>::empty());
    }
}

/// Assembling lines is settling them and putting them one after another.
pub proof fn lemma_assemble_settled(lines: Seq<Seq<char>>)
    ensures
        assemble(lines) == flat(settled(lines)),
{
    if lines.len() > 0 {
        let k = lines.len() - 1;
        lemma_closed_flat_settled(lines, k);
        assert(lines.take(k) =~= lines.drop_last());
        assert(settled(lines).take(k) =~= settled(lines).drop_last());
        assert(settled(lines).last() == lines.last());
    } else {
        assert(settled(lines) =~= Seq::<Seq<char>>::empty());
    }
}

/// Gives every line but the last the line feed that it lacks.
pub fn settle_lines(lines: &mut Vec<String>)
    ensures
        texts(final(lines)@) == settled(texts(old(lines)@)),
{
    if lines.len() < 2 {
        assert(texts(lines@) =~= settled(texts(lines@)));
        return ;
    }
    let last = lines.len() - 1;
    let ghost before = texts(lines@);
    let mut i: usize = 0;
    while i < last
        invariant
            i <= last,
            last + 1 == lines.len(),
            before.len() == lines@.len(),
            forall|j: int| 0 <= j < i ==> (#[trigger] lines@[j])@ == closed(before[j]),
            forall|j: int| i <= j < lines@.len() ==> (#[trigger] lines@[j])@ == before[j],
        decreases last - i,
    {
        if !has_line_end(lines[i].as_str()) {
            let mut line = lines[i].clone();
            line.push('\n');
            lines.set(i, line);
        }
        i += 1;
    }
    assert(texts(lines@) =~= settled(before));
}

/// Takes a text apart into its pieces.
pub fn split_pieces(text: &str) -> (out: Vec<String>)
    ensures
        texts(out@) == pieces_of(text@),
{
    let v = to_chars(text);
    let n = v.len();
    let mut out: Vec<String> = Vec::new();
    let mut start: usize = 0;
    let mut i: usize = 0;
    assert(v@.skip(0) == v@);
    while i < n
        invariant
            n == v.len(),
            start <= i <= n,
            forall|j: int| start <= j < i ==> v@[j] != '\n',
            texts(out@) + pieces_of(v@.skip(start as int)) == pieces_of(v@),
        decreases n - i,
    {
        if v[i] == '\n' {
            let mut piece = String::new();
            push_range(&mut piece, &v, start, i + 1);
            proof {
                lemma_pieces_step(v@, start as int, i as int);
                assert(texts(out@.push(piece)) =~= texts(out@) + seq![piece@]);
            }
            out.push(piece);
            start = i + 1;
        }
        i += 1;
    }
    proof {
        lemma_pieces_last(v@, start as int);
    }
    if start < n {
        let mut piece = String::new();
        push_range(&mut piece, &v, start, n);
        proof {
            assert(v@.subrange(start as int, n as int) =~= v@.skip(start as int));
            assert(texts(out@.push(piece)) =~= texts(out@) + seq![piece@]);
        }
        out.push(piece);
    } else {
        assert(texts(out@) + Seq::<Seq<char>>::empty() =~= texts(out@));
    }
    out
}

/// Whether a string ends with a line feed.
pub fn has_line_end(piece: &str) -> (b: bool)
    ensures
        b == ends_line(piece@),
{
    let v = to_chars(piece);
    v.len() > 0 && v[v.len() - 1] == '\n'
}

/// A string without the line feed that may end it.
pub fn without_line_end(piece: &str) -> (r: String)
    ensures
        r@ == bare(piece@),
{
    let v = to_chars(piece);
    let mut r = String::new();
    if v.len() > 0 && v[v.len() - 1] == '\n' {
        push_range(&mut r, &v, 0, v.len() - 1);
        assert(v@.subrange(0, v@.len() - 1) =~= v@.drop_last());
    } else {
        push_range(&mut r, &v, 0, v.len());
        assert(v@.subrange(0, v@.len() as int) =~= v@);
    }
    r
}

/// Puts lines that carry their own line ends together to a text.
pub fn assemble_lines(lines: &Vec<String>) -> (s: String)
    ensures
        s@ == assemble(texts(lines@)),
{
    let mut s = String::new();
    if lines.len() == 0 {
        return s;
    }
    let last = lines.len() - 1;
    let ghost front = texts(lines@).drop_last();
    let mut i: usize = 0;
    assert(front.take(0) =~= Seq::<Seq<char>>::empty());
    while i < last
        invariant
            i <= last,
            last + 1 == lines.len(),
            front == texts(lines@).drop_last(),
            s@ == closed_flat(front.take(i as int)),
        decreases last - i,
    {
        let piece = lines[i].as_str();
        proof {
            let next = front.take(i + 1);
            assert(next.drop_last() =~= front.take(i as int));
            assert(next.last() == piece@);
        }
        push_text(&mut s, piece);
        if !has_line_end(piece) {
            s.push('\n');
        }
        i += 1;
    }
    assert(front.take(last as int) =~= front);
    push_text(&mut s, lines[last].as_str());
    assert(texts(lines@).last() == lines@[last as int]@);
    s
}

} // verus!
