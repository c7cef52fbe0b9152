//! Which words of a text stand next to each other.

use vstd::prelude::*;
use crate::text::{lowercase, split_words, text_eq, texts, to_lowercase, words_of};

verus! {

/// The words of a text in lower case, in their order.
pub open spec fn terms_of(content: Seq<char>) -> Seq<Seq<char>> {
    Seq::new(words_of(content).len(), |i: int| lowercase(words_of(content)[i]))
}

/// Whether `a` and `b` are the terms at positions `i` and `i + 1`, in
/// either order.
pub open spec fn neighbours_at(terms: Seq<Seq<char>>, i: int, a: Seq<char>, b: Seq<char>) -> bool {
    &&& 0 <= i
    &&& i + 1 < terms.len()
    &&& (terms[i] == a && terms[i + 1] == b) || (terms[i] == b && terms[i + 1] == a)
}

/// Whether `a` and `b` stand next to each other somewhere among the first
/// `upto` pairs of neighbours.
pub open spec fn linked_within(terms: Seq<Seq<char>>, upto: int, a: Seq<char>, b: Seq<char>) -> bool {
    exists|i: int| i < upto && neighbours_at(terms, i, a, b)
}

/// Whether `a` and `b` stand next to each other somewhere.
pub open spec fn linked(terms: Seq<Seq<char>>, a: Seq<char>, b: Seq<char>) -> bool {
    exists|i: int| neighbours_at(terms, i, a, b)
}

/// The terms of a text and which of them stand next to each other.
pub struct TermGraph {
    /// Every pair of neighbours, once in each direction.
    pub edges: Vec<(String, String)>,
}

impl TermGraph {
    /// Whether position `j` of the edges holds the pair `a`, `b`.
    pub open spec fn edge_at(self, j: int, a: Seq<char>, b: Seq<char>) -> bool {
        0 <= j < self.edges@.len() && self.edges@[j].0@ == a && self.edges@[j].1@ == b
    }

    /// Whether the graph links `a` to `b`.
    pub open spec fn links(self, a: Seq<char>, b: Seq<char>) -> bool {
        exists|j: int| self.edge_at(j, a, b)
    }

    /// No pair is listed twice.
    pub open spec fn wf(self) -> bool {
        forall|j: int, k: int|
            0 <= j < k < self.edges@.len() ==> !(self.edges@[j].0@ == self.edges@[k].0@
                && self.edges@[j].1@ == self.edges@[k].1@)
    }

    /// Decides whether the graph links `a` to `b`.
    pub fn has_edge(&self, a: &str, b: &str) -> (found: bool)
        ensures
            found == self.links(a@, b@),
    {
        let mut j: usize = 0;
        while j < self.edges.len()
            invariant
                j <= self.edges.len(),
                forall|k: int| 0 <= k < j ==> !self.edge_at(k, a@, b@),
            decreases self.edges.len() - j,
        {
            if text_eq(self.edges[j].0.as_str(), a) && text_eq(self.edges[j].1.as_str(), b) {
                assert(self.edge_at(j as int, a@, b@));
                return true;
            }
            j += 1;
        }
        false
    }

    /// Adds the pair `a`, `b` unless the graph has it.
    fn link(&mut self, a: &str, b: &str)
        requires
            old(self).wf(),
        ensures
            final(self).wf(),
            forall|x: Seq<char>, y: Seq<char>|
                final(self).links(x, y) <==> (old(self).links(x, y) || (x == a@ && y == b@)),
    {
        if self.has_edge(a, b) {
            return ;
        }
        let ghost before = *self;
        self.edges.push((a.to_owned(), b.to_owned()));
        let ghost last = before.edges@.len() as int;
        assert(self.edge_at(last, a@, b@));
        assert forall|x: Seq<char>, y: Seq<char>|
            self.links(x, y) <==> (before.links(x, y) || (x == a@ && y == b@)) by {
            if before.links(x, y) {
                let j = choose|j: int| before.edge_at(j, x, y);
                assert(self.edge_at(j, x, y));
            }
            if self.links(x, y) {
                let j = choose|j: int| self.edge_at(j, x, y);
                if j < last {
                    assert(before.edge_at(j, x, y));
                }
            }
        }
        assert forall|j: int, k: int| 0 <= j < k < self.edges@.len() implies !(self.edges@[j].0@
            == self.edges@[k].0@ && self.edges@[j].1@ == self.edges@[k].1@) by {
            if k == last {
                assert(!before.edge_at(j, a@, b@));
            }
        }
    }
}

/// The terms of a text: its words in lower case, in their order.
pub fn terms(content: &str) -> (terms: Vec<String>)
    ensures
        texts(terms@) == terms_of(content@),
{
    let words = split_words(content);
    let mut terms: Vec<String> = Vec::new();
    let mut k: usize = 0;
    while k < words.len()
        invariant
            k <= words.len(),
            texts(words@) == words_of(content@),
            terms@.len() == k,
            forall|j: int| 0 <= j < k ==> (#[trigger] terms@[j])@ == terms_of(content@)[j],
        decreases words.len() - k,
    {
        assert(texts(words@)[k as int] == words@[k as int]@);
        terms.push(to_lowercase(words[k].as_str()));
        k += 1;
    }
    assert(texts(terms@) =~= terms_of(content@));
    terms
}

/// Builds the graph of the terms of a text: two terms are linked, in both
/// directions, exactly if they stand next to each other somewhere in the
/// text. Terms are the words of the text in lower case.
pub fn build_term_graph(content: &str) -> (graph: TermGraph)
    ensures
        graph.wf(),
        forall|a: Seq<char>, b: Seq<char>|
            graph.links(a, b) <==> linked(terms_of(content@), a, b),
{
    let terms = terms(content);
    let ghost all = terms_of(content@);
    let mut graph = TermGraph { edges: Vec::new() };
    let pairs: usize = if terms.len() == 0 {
        0
    } else {
        terms.len() - 1
    };
    let mut i: usize = 0;
    while i < pairs
        invariant
            i <= pairs,
            pairs + 1 == terms.len() || (pairs == 0 && terms.len() == 0),
            all == terms_of(content@),
            texts(terms@) == all,
            graph.wf(),
            forall|a: Seq<char>, b: Seq<char>|
                graph.links(a, b) <==> linked_within(all, i as int, a, b),
        decreases pairs - i,
    {
        let ghost before = graph;
        assert(terms@[i as int]@ == texts(terms@)[i as int]);
        assert(terms@[i + 1]@ == texts(terms@)[i + 1]);
        graph.link(terms[i].as_str(), terms[i + 1].as_str());
        let ghost mid = graph;
        graph.link(terms[i + 1].as_str(), terms[i].as_str());
        assert forall|a: Seq<char>, b: Seq<char>|
            graph.links(a, b) <==> linked_within(all, i + 1, a, b) by {
            if linked_within(all, i + 1, a, b) {
                let j = choose|j: int| j < i + 1 && neighbours_at(all, j, a, b);
                if j < i {
                    assert(linked_within(all, i as int, a, b));
                }
            }
            if graph.links(a, b) {
                if before.links(a, b) {
                    let j = choose|j: int| j < i && neighbours_at(all, j, a, b);
                    assert(j < i + 1 && neighbours_at(all, j, a, b));
                } else {
                    assert(neighbours_at(all, i as int, a, b));
                }
            }
        }
        i += 1;
    }
    assert forall|a: Seq<char>, b: Seq<char>| graph.links(a, b) <==> linked(all, a, b) by {
        if linked(all, a, b) {
            let j = choose|j: int| neighbours_at(all, j, a, b);
            assert(j < i && neighbours_at(all, j, a, b));
        }
        if graph.links(a, b) {
            let j = choose|j: int| j < i && neighbours_at(all, j, a, b);
            assert(neighbours_at(all, j, a, b));
        }
    }
    graph
}

/// Decides whether `term` is among `list`.
pub fn has_term(list: &Vec<String>, term: &str) -> (b: bool)
    ensures
        b == texts(list@).contains(term@),
{
    let mut j: usize = 0;
    while j < list.len()
        invariant
            j <= list.len(),
            forall|k: int| 0 <= k < j ==> texts(list@)[k] != term@,
        decreases list.len() - j,
    {
        if text_eq(list[j].as_str(), term) {
            assert(texts(list@)[j as int] == term@);
            return true;
        }
        j += 1;
    }
    false
}

/// Those of `a` that are among `b`, if `keep` is set, and those that are
/// not, if it is not; in the order of `a`.
fn sift(a: &Vec<String>, b: &Vec<String>, keep: bool) -> (r: Vec<String>)
    ensures
        texts(a@).no_duplicates() ==> texts(r@).no_duplicates(),
        r@.len() <= a@.len(),
        forall|t: Seq<char>|
            texts(r@).contains(t) <==> (texts(a@).contains(t) && texts(b@).contains(t) == keep),
{
    let mut r: Vec<String> = Vec::new();
    let mut i: usize = 0;
    while i < a.len()
        invariant
            i <= a.len(),
            r@.len() <= i,
            texts(a@).no_duplicates() ==> texts(r@).no_duplicates(),
            forall|t: Seq<char>|
                texts(r@).contains(t) <==> (texts(a@).take(i as int).contains(t) && texts(
                    b@,
                ).contains(t) == keep),
        decreases a.len() - i,
    {
        let ghost all = texts(a@);
        let ghost before = texts(r@);
        let ghost term = a@[i as int]@;
        assert(all[i as int] == term);
        let among = has_term(b, a[i].as_str());
        if among == keep {
            r.push(a[i].clone());
            assert(texts(r@) =~= before.push(term));
        }
        proof {
            let after = texts(r@);
            let prev = all.take(i as int);
            let next = all.take(i + 1);
            assert(next[i as int] == term);
            assert forall|t: Seq<char>|
                after.contains(t) <==> (next.contains(t) && texts(b@).contains(t) == keep) by {
                if next.contains(t) {
                    let k = choose|k: int| 0 <= k < next.len() && next[k] == t;
                    if k < i {
                        assert(prev[k] == t);
                    }
                }
                if prev.contains(t) {
                    let k = choose|k: int| 0 <= k < prev.len() && prev[k] == t;
                    assert(next[k] == t);
                }
                if before.contains(t) {
                    let k = choose|k: int| 0 <= k < before.len() && before[k] == t;
                    assert(after[k] == t);
                }
                if after.contains(t) {
                    let k = choose|k: int| 0 <= k < after.len() && after[k] == t;
                    if k < before.len() {
                        assert(before[k] == t);
                    }
                }
                if among == keep {
                    assert(after[before.len() as int] == term);
                }
            }
            if all.no_duplicates() && among == keep {
                assert(!before.contains(term)) by {
                    if prev.contains(term) {
                        let k = choose|k: int| 0 <= k < prev.len() && prev[k] == term;
                        assert(all[k] == all[i as int]);
                    }
                }
                assert forall|x: int, y: int|
                    0 <= x < after.len() && 0 <= y < after.len() && x != y implies after[x]
                    != after[y] by {
                    if x < before.len() && y < before.len() {
                        assert(before[x] != before[y]);
                    } else if x < before.len() {
                        assert(before[x] == after[x]);
                    } else {
                        assert(before[y] == after[y]);
                    }
                }
            }
        }
        i += 1;
    }
    assert(texts(a@).take(a@.len() as int) =~= texts(a@));
    r
}

/// The sizes of what two sets have in common and of what they have
/// together.
#[derive(Clone, Copy, Debug, PartialEq, Eq, Structural)]
pub struct Overlap {
    /// How many elements are in both sets.
    pub shared: usize,
    /// How many elements are in either set.
    pub all: usize,
}

/// Whether `o` holds the sizes of the intersection and of the union of
/// `a` and `b`.
pub open spec fn overlaps(o: Overlap, a: Set<Seq<char>>, b: Set<Seq<char>>) -> bool {
    o.shared == a.intersect(b).len() && o.all == a.union(b).len()
}

/// The terms that two lists without repetitions have in common, and the
/// number of terms that they have together.
fn common_and_all(a: &Vec<String>, b: &Vec<String>) -> (r: (Vec<String>, usize))
    requires
        texts(a@).no_duplicates(),
        texts(b@).no_duplicates(),
        a@.len() + b@.len() <= usize::MAX,
    ensures
        texts(r.0@).no_duplicates(),
        texts(r.0@).to_set() == texts(a@).to_set().intersect(texts(b@).to_set()),
        r.0@.len() == texts(a@).to_set().intersect(texts(b@).to_set()).len(),
        r.1 == texts(a@).to_set().union(texts(b@).to_set()).len(),
{
    let common = sift(a, b, true);
    let extra = sift(b, a, false);
    proof {
        let sa = texts(a@);
        let sb = texts(b@);
        let sc = texts(common@);
        let se = texts(extra@);
        assert(sc.to_set() =~= sa.to_set().intersect(sb.to_set()));
        sc.unique_seq_to_set();
        let both = sa + se;
        assert(both.no_duplicates()) by {
            assert forall|x: int, y: int|
                0 <= x < both.len() && 0 <= y < both.len() && x != y implies both[x]
                != both[y] by {
                if x < sa.len() && y < sa.len() {
                } else if x >= sa.len() && y >= sa.len() {
                    assert(se[x - sa.len()] != se[y - sa.len()]);
                } else if x < sa.len() {
                    assert(se.contains(se[y - sa.len()]));
                    assert(sa.contains(sa[x]));
                } else {
                    assert(se.contains(se[x - sa.len()]));
                    assert(sa.contains(sa[y]));
                }
            }
        }
        assert(both.to_set() =~= sa.to_set().union(sb.to_set())) by {
            assert forall|t: Seq<char>|
                both.to_set().contains(t) <==> sa.to_set().union(sb.to_set()).contains(t) by {
                if both.contains(t) {
                    let k = choose|k: int| 0 <= k < both.len() && both[k] == t;
                    if k < sa.len() {
                        assert(sa[k] == t);
                    } else {
                        assert(se[k - sa.len()] == t);
                        assert(se.contains(t));
                    }
                }
                if sa.contains(t) {
                    let k = choose|k: int| 0 <= k < sa.len() && sa[k] == t;
                    assert(both[k] == t);
                }
                if sb.contains(t) && !sa.contains(t) {
                    assert(se.contains(t));
                    let k = choose|k: int| 0 <= k < se.len() && se[k] == t;
                    assert(both[sa.len() + k] == t);
                }
            }
        }
        both.unique_seq_to_set();
    }
    let all = a.len() + extra.len();
    (common, all)
}

/// Compares two lists of terms without repetitions as sets.
pub fn overlap(a: &Vec<String>, b: &Vec<String>) -> (o: Overlap)
    requires
        texts(a@).no_duplicates(),
        texts(b@).no_duplicates(),
        a@.len() + b@.len() <= usize::MAX,
    ensures
        overlaps(o, texts(a@).to_set(), texts(b@).to_set()),
{
    let (common, all) = common_and_all(a, b);
    Overlap { shared: common.len(), all }
}

impl TermGraph {
    /// Whether `t` begins the pair at position `j`.
    pub open spec fn begins(self, j: int, t: Seq<char>) -> bool {
        0 <= j < self.edges@.len() && self.edges@[j].0@ == t
    }

    /// Whether `t` is a term of the graph: it has a neighbour.
    pub open spec fn is_term(self, t: Seq<char>) -> bool {
        exists|b: Seq<char>| self.links(t, b)
    }

    /// The terms of the graph.
    pub open spec fn term_set(self) -> Set<Seq<char>> {
        Set::new(|t: Seq<char>| self.is_term(t))
    }

    /// The neighbours of `t`.
    pub open spec fn neighbour_set(self, t: Seq<char>) -> Set<Seq<char>> {
        Set::new(|b: Seq<char>| self.links(t, b))
    }

    /// Lists the terms of the graph, each once.
    pub fn terms(&self) -> (r: Vec<String>)
        ensures
            texts(r@).no_duplicates(),
            texts(r@).to_set() == self.term_set(),
            r@.len() <= self.edges@.len(),
    {
        let mut r: Vec<String> = Vec::new();
        let mut j: usize = 0;
        while j < self.edges.len()
            invariant
                j <= self.edges.len(),
                r@.len() <= j,
                texts(r@).no_duplicates(),
                forall|t: Seq<char>|
                    texts(r@).contains(t) <==> exists|k: int| k < j && self.begins(k, t),
            decreases self.edges.len() - j,
        {
            let ghost before = texts(r@);
            let ghost term = self.edges@[j as int].0@;
            assert(self.begins(j as int, term));
            if !has_term(&r, self.edges[j].0.as_str()) {
                r.push(self.edges[j].0.clone());
                assert(texts(r@) =~= before.push(term));
            }
            proof {
                let after = texts(r@);
                assert forall|t: Seq<char>|
                    after.contains(t) <==> exists|k: int| k < j + 1 && self.begins(k, t) by {
                    if before.contains(t) {
                        let i = choose|i: int| 0 <= i < before.len() && before[i] == t;
                        assert(after[i] == t);
                        let k = choose|k: int| k < j && self.begins(k, t);
                        assert(k < j + 1 && self.begins(k, t));
                    }
                    if after.contains(t) && !before.contains(t) {
                        let i = choose|i: int| 0 <= i < after.len() && after[i] == t;
                        if i < before.len() {
                            assert(before[i] == t);
                        }
                        assert(t == term);
                    }
                    if exists|k: int| k < j + 1 && self.begins(k, t) {
                        let k = choose|k: int| k < j + 1 && self.begins(k, t);
                        if k < j {
                            assert(before.contains(t));
                        } else {
                            assert(t == term);
                            if !before.contains(term) {
                                assert(after[before.len() as int] == term);
                            }
                        }
                    }
                }
                if !before.contains(term) {
                    assert forall|x: int, y: int|
                        0 <= x < after.len() && 0 <= y < after.len() && x != y implies after[x]
                        != after[y] by {
                        if x < before.len() && y < before.len() {
                            assert(before[x] != before[y]);
                        } else if x < before.len() {
                            assert(before[x] == after[x]);
                        } else {
                            assert(before[y] == after[y]);
                        }
                    }
                }
            }
            j += 1;
        }
        proof {
            assert(texts(r@).to_set() =~= self.term_set()) by {
                assert forall|t: Seq<char>|
                    texts(r@).to_set().contains(t) <==> self.term_set().contains(t) by {
                    if texts(r@).contains(t) {
                        let k = choose|k: int| k < j && self.begins(k, t);
                        assert(self.edge_at(k, t, self.edges@[k].1@));
                        assert(self.links(t, self.edges@[k].1@));
                    }
                    if self.is_term(t) {
                        let b = choose|b: Seq<char>| self.links(t, b);
                        let k = choose|k: int| self.edge_at(k, t, b);
                        assert(k < j && self.begins(k, t));
                    }
                }
            }
        }
        r
    }

    /// Lists the neighbours of a term, each once.
    pub fn neighbours(&self, term: &str) -> (r: Vec<String>)
        requires
            self.wf(),
        ensures
            texts(r@).no_duplicates(),
            texts(r@).to_set() == self.neighbour_set(term@),
            r@.len() <= self.edges@.len(),
    {
        let mut r: Vec<String> = Vec::new();
        let mut j: usize = 0;
        while j < self.edges.len()
            invariant
                j <= self.edges.len(),
                r@.len() <= j,
                self.wf(),
                texts(r@).no_duplicates(),
                forall|b: Seq<char>|
                    texts(r@).contains(b) <==> exists|k: int| k < j && self.edge_at(k, term@, b),
            decreases self.edges.len() - j,
        {
            let ghost before = texts(r@);
            let ghost other = self.edges@[j as int].1@;
            let hit = text_eq(self.edges[j].0.as_str(), term);
            if hit {
                r.push(self.edges[j].1.clone());
                assert(texts(r@) =~= before.push(other));
            }
            proof {
                let after = texts(r@);
                if hit {
                    assert(self.edge_at(j as int, term@, other));
                    assert(!before.contains(other)) by {
                        if before.contains(other) {
                            let k = choose|k: int| k < j && self.edge_at(k, term@, other);
                            assert(self.edges@[k].0@ == self.edges@[j as int].0@);
                        }
                    }
                    assert forall|x: int, y: int|
                        0 <= x < after.len() && 0 <= y < after.len() && x != y implies after[x]
                        != after[y] by {
                        if x < before.len() && y < before.len() {
                            assert(before[x] != before[y]);
                        } else if x < before.len() {
                            assert(before[x] == after[x]);
                            assert(before.contains(before[x]));
                        } else {
                            assert(before[y] == after[y]);
                            assert(before.contains(before[y]));
                        }
                    }
                }
                assert forall|b: Seq<char>|
                    after.contains(b) <==> exists|k: int| k < j + 1 && self.edge_at(k, term@, b) by {
                    if before.contains(b) {
                        let i = choose|i: int| 0 <= i < before.len() && before[i] == b;
                        assert(after[i] == b);
                        let k = choose|k: int| k < j && self.edge_at(k, term@, b);
                        assert(k < j + 1 && self.edge_at(k, term@, b));
                    }
                    if after.contains(b) && !before.contains(b) {
                        let i = choose|i: int| 0 <= i < after.len() && after[i] == b;
                        if i < before.len() {
                            assert(before[i] == b);
                        }
                        assert(hit && b == other);
                        assert(self.edge_at(j as int, term@, b));
                    }
                    if exists|k: int| k < j + 1 && self.edge_at(k, term@, b) {
                        let k = choose|k: int| k < j + 1 && self.edge_at(k, term@, b);
                        if k < j {
                            assert(before.contains(b));
                        } else {
                            assert(hit && b == other);
                            assert(after[before.len() as int] == other);
                        }
                    }
                }
            }
            j += 1;
        }
        proof {
            assert(texts(r@).to_set() =~= self.neighbour_set(term@)) by {
                assert forall|b: Seq<char>|
                    texts(r@).to_set().contains(b) <==> self.neighbour_set(term@).contains(b) by {
                    if texts(r@).contains(b) {
                        let k = choose|k: int| k < j && self.edge_at(k, term@, b);
                        assert(self.edge_at(k, term@, b));
                    }
                    if self.links(term@, b) {
                        let k = choose|k: int| self.edge_at(k, term@, b);
                        assert(k < j && self.edge_at(k, term@, b));
                    }
                }
            }
        }
        r
    }
}

/// How two graphs overlap: the terms they share, the number of terms they
/// have together, and the overlap of the neighbours of each shared term.
pub struct GraphOverlap {
    /// The terms that both graphs have, each once.
    pub shared: Vec<String>,
    /// How many terms the graphs have together.
    pub all_terms: usize,
    /// For each shared term, in the order of `shared`, how its neighbours
    /// in the two graphs overlap.
    pub edges: Vec<Overlap>,
}

/// Compares the terms and the neighbourhoods of two graphs.
pub fn graph_overlap(query: &TermGraph, doc: &TermGraph) -> (o: GraphOverlap)
    requires
        query.wf(),
        doc.wf(),
        query.edges@.len() + doc.edges@.len() <= usize::MAX,
    ensures
        texts(o.shared@).no_duplicates(),
        texts(o.shared@).to_set() == query.term_set().intersect(doc.term_set()),
        o.all_terms == query.term_set().union(doc.term_set()).len(),
        o.edges@.len() == o.shared@.len(),
        forall|i: int|
            0 <= i < o.edges@.len() ==> overlaps(
                #[trigger] o.edges@[i],
                query.neighbour_set(o.shared@[i]@),
                doc.neighbour_set(o.shared@[i]@),
            ),
{
    let query_terms = query.terms();
    let doc_terms = doc.terms();
    let (shared, all_terms) = common_and_all(&query_terms, &doc_terms);
    let mut edges: Vec<Overlap> = Vec::new();
    let mut i: usize = 0;
    while i < shared.len()
        invariant
            i <= shared.len(),
            query.wf(),
            doc.wf(),
            query.edges@.len() + doc.edges@.len() <= usize::MAX,
            edges@.len() == i,
            forall|k: int|
                0 <= k < i ==> overlaps(
                    #[trigger] edges@[k],
                    query.neighbour_set(shared@[k]@),
                    doc.neighbour_set(shared@[k]@),
                ),
        decreases shared.len() - i,
    {
        let term = shared[i].as_str();
        let here = query.neighbours(term);
        let there = doc.neighbours(term);
        edges.push(overlap(&here, &there));
        i += 1;
    }
    GraphOverlap { shared, all_terms, edges }
}

/// Whether a document holds the term `t`.
pub open spec fn mentions(document: Seq<char>, t: Seq<char>) -> bool {
    terms_of(document).contains(t)
}

/// How many of the first `upto` documents hold the term `t`.
pub open spec fn documents_with(documents: Seq<String>, t: Seq<char>, upto: int) -> nat
    decreases upto,
{
    if upto <= 0 {
        0
    } else {
        documents_with(documents, t, upto - 1) + if mentions(documents[upto - 1]@, t) {
            1nat
        } else {
            0nat
        }
    }
}

proof fn lemma_documents_with_bound(documents: Seq<String>, t: Seq<char>, upto: int)
    requires
        0 <= upto,
    ensures
        documents_with(documents, t, upto) <= upto,
    decreases upto,
{
    if upto > 0 {
        lemma_documents_with_bound(documents, t, upto - 1);
    }
}

/// The terms of some documents, and for each the number of documents that
/// hold it.
pub struct Vocabulary {
    /// The terms, each once.
    pub terms: Vec<String>,
    /// For each term, in the order of `terms`, the number of documents that
    /// hold it.
    pub documents: Vec<usize>,
}

impl Vocabulary {
    /// Every term has its number, and no term is listed twice.
    pub open spec fn wf(self) -> bool {
        self.terms@.len() == self.documents@.len() && texts(self.terms@).no_duplicates()
    }

    /// The number of documents that hold `t`, as the vocabulary has it.
    pub open spec fn frequency(self, t: Seq<char>) -> nat {
        match texts(self.terms@).index_of_first(t) {
            Some(i) => self.documents@[i] as nat,
            None => 0,
        }
    }

    /// Counts one more document for `term`.
    fn count(&mut self, term: &str)
        requires
            old(self).wf(),
            old(self).frequency(term@) < usize::MAX,
        ensures
            final(self).wf(),
            forall|t: Seq<char>|
                final(self).frequency(t) == old(self).frequency(t) + if t == term@ {
                    1nat
                } else {
                    0nat
                },
    {
        let ghost before = texts(self.terms@);
        let ghost numbers = self.documents@;
        proof {
            before.index_of_first_ensures(term@);
        }
        let mut i: usize = 0;
        while i < self.terms.len()
            invariant
                i <= self.terms.len(),
                self.terms == old(self).terms,
                self.documents == old(self).documents,
                before == texts(self.terms@),
                forall|k: int| 0 <= k < i ==> before[k] != term@,
            ensures
                i < self.terms.len() ==> before[i as int] == term@,
            decreases self.terms.len() - i,
        {
            if text_eq(self.terms[i].as_str(), term) {
                assert(before[i as int] == term@);
                break;
            }
            i += 1;
        }
        if i < self.terms.len() {
            assert(before[i as int] == term@);
            assert(before.index_of_first(term@) == Some(i as int));
            let n = self.documents[i];
            self.documents.set(i, n + 1);
            proof {
                assert forall|t: Seq<char>|
                    self.frequency(t) == old(self).frequency(t) + if t == term@ {
                        1nat
                    } else {
                        0nat
                    } by {
                    before.index_of_first_ensures(t);
                }
            }
        } else {
            assert(!before.contains(term@));
            self.terms.push(term.to_owned());
            self.documents.push(1);
            proof {
                let after = texts(self.terms@);
                assert(after =~= before.push(term@));
                assert forall|x: int, y: int|
                    0 <= x < after.len() && 0 <= y < after.len() && x != y implies after[x]
                    != after[y] by {
                    if x < before.len() && y < before.len() {
                        assert(before[x] != before[y]);
                    } else if x < before.len() {
                        assert(before.contains(before[x]));
                    } else {
                        assert(before.contains(before[y]));
                    }
                }
                assert forall|t: Seq<char>|
                    self.frequency(t) == old(self).frequency(t) + if t == term@ {
                        1nat
                    } else {
                        0nat
                    } by {
                    before.index_of_first_ensures(t);
                    after.index_of_first_ensures(t);
                    match after.index_of_first(t) {
                        Some(k) => {
                            if k < before.len() {
                                assert(before[k] == t);
                                assert(before.contains(t));
                                let j = before.index_of_first(t)->0;
                                assert(after[j] == t);
                                assert(j == k);
                            }
                        },
                        None => {
                            if before.contains(t) {
                                let j = choose|j: int| 0 <= j < before.len() && before[j] == t;
                                assert(after[j] == t);
                            }
                            assert(after[before.len() as int] == term@);
                        },
                    }
                }
            }
        }
    }
}

/// Whether the term at position `j` of `words` stands at an earlier
/// position too.
fn seen_before(words: &Vec<String>, j: usize) -> (b: bool)
    requires
        j < words.len(),
    ensures
        b == texts(words@).take(j as int).contains(words@[j as int]@),
{
    let ghost prefix = texts(words@).take(j as int);
    let mut i: usize = 0;
    while i < j
        invariant
            i <= j < words.len(),
            prefix == texts(words@).take(j as int),
            forall|k: int| 0 <= k < i ==> prefix[k] != words@[j as int]@,
        decreases j - i,
    {
        if text_eq(words[i].as_str(), words[j].as_str()) {
            assert(prefix[i as int] == words@[j as int]@);
            return true;
        }
        i += 1;
    }
    false
}

/// Counts, for every term of the documents, the documents that hold it.
pub fn document_frequencies(documents: &Vec<String>) -> (v: Vocabulary)
    ensures
        v.wf(),
        forall|t: Seq<char>|
            v.frequency(t) == documents_with(documents@, t, documents@.len() as int),
{
    let mut v = Vocabulary { terms: Vec::new(), documents: Vec::new() };
    assert forall|t: Seq<char>| v.frequency(t) == documents_with(documents@, t, 0) by {
        texts(v.terms@).index_of_first_ensures(t);
    }
    let mut k: usize = 0;
    while k < documents.len()
        invariant
            k <= documents.len(),
            v.wf(),
            forall|t: Seq<char>| v.frequency(t) == documents_with(documents@, t, k as int),
        decreases documents.len() - k,
    {
        let words = terms(documents[k].as_str());
        let ghost all = texts(words@);
        let mut j: usize = 0;
        assert(all.take(0) =~= Seq::<Seq<char>>::empty());
        while j < words.len()
            invariant
                j <= words.len(),
                k < documents.len(),
                v.wf(),
                all == texts(words@),
                all == terms_of(documents@[k as int]@),
                forall|t: Seq<char>|
                    v.frequency(t) == documents_with(documents@, t, k as int) + if all.take(
                        j as int,
                    ).contains(t) {
                        1nat
                    } else {
                        0nat
                    },
            decreases words.len() - j,
        {
            let ghost word = words@[j as int]@;
            let ghost prev = all.take(j as int);
            let ghost next = all.take(j + 1);
            let ghost old_v = v;
            assert(all[j as int] == word);
            let repeated = seen_before(&words, j);
            if !repeated {
                proof {
                    lemma_documents_with_bound(documents@, word, k as int);
                }
                v.count(words[j].as_str());
            }
            proof {
                assert(next[j as int] == word);
                assert forall|t: Seq<char>|
                    v.frequency(t) == documents_with(documents@, t, k as int) + if next.contains(
                        t,
                    ) {
                        1nat
                    } else {
                        0nat
                    } by {
                    if prev.contains(t) {
                        let i = choose|i: int| 0 <= i < prev.len() && prev[i] == t;
                        assert(next[i] == t);
                    }
                    if next.contains(t) && !prev.contains(t) {
                        let i = choose|i: int| 0 <= i < next.len() && next[i] == t;
                        if i < j {
                            assert(prev[i] == t);
                        }
                        assert(t == word);
                    }
                }
            }
            j += 1;
        }
        proof {
            assert(all.take(all.len() as int) =~= all);
        }
        k += 1;
    }
    v
}

/// How often `t` stands among the first `upto` terms.
pub open spec fn occurrences(terms: Seq<Seq<char>>, t: Seq<char>, upto: int) -> nat
    decreases upto,
{
    if upto <= 0 {
        0
    } else {
        occurrences(terms, t, upto - 1) + if terms[upto - 1] == t {
            1nat
        } else {
            0nat
        }
    }
}

/// Counts how often each term of a vocabulary stands in a text, and how
/// many words the text has.
pub fn term_counts(text: &str, vocabulary: &Vec<String>) -> (r: (Vec<usize>, usize))
    ensures
        r.1 == terms_of(text@).len(),
        r.0@.len() == vocabulary@.len(),
        forall|i: int|
            0 <= i < vocabulary@.len() ==> (#[trigger] r.0@[i]) == occurrences(
                terms_of(text@),
                vocabulary@[i]@,
                terms_of(text@).len() as int,
            ),
{
    let words = terms(text);
    let ghost all = texts(words@);
    let mut counts: Vec<usize> = Vec::new();
    let mut i: usize = 0;
    while i < vocabulary.len()
        invariant
            i <= vocabulary.len(),
            all == texts(words@),
            counts@.len() == i,
            forall|k: int|
                0 <= k < i ==> (#[trigger] counts@[k]) == occurrences(
                    all,
                    vocabulary@[k]@,
                    all.len() as int,
                ),
        decreases vocabulary.len() - i,
    {
        let mut n: usize = 0;
        let mut j: usize = 0;
        while j < words.len()
            invariant
                j <= words.len(),
                i < vocabulary.len(),
                all == texts(words@),
                n <= j,
                n == occurrences(all, vocabulary@[i as int]@, j as int),
            decreases words.len() - j,
        {
            assert(all[j as int] == words@[j as int]@);
            if text_eq(words[j].as_str(), vocabulary[i].as_str()) {
                n += 1;
            }
            j += 1;
        }
        counts.push(n);
        i += 1;
    }
    (counts, words.len())
}

} // verus!
