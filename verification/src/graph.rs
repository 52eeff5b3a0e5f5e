//! The containment graph of a schema and the reachability query on it.
//!
//! Nodes are message indices. An edge `m -> t` says that message `m` holds
//! message `t` by value: repeated fields contribute no edge, since their
//! container already provides the indirection.

use vstd::prelude::*;

verus! {

/// Directed containment graph: `edges[m]` lists the messages that message
/// `m` references through a field that is no list, in field order.
pub struct MessageGraph {
    pub edges: Vec<Vec<usize>>,
}

/// Number of entries of `marks` that are still `false`.
pub open spec fn unvisited(marks: Seq<bool>) -> nat
    decreases marks.len(),
{
    if marks.len() == 0 {
        0
    } else {
        unvisited(marks.drop_last()) + if marks.last() { 0nat } else { 1nat }
    }
}

/// Marking one more node, and possibly others, strictly lowers the count of
/// unvisited nodes.
pub proof fn lemma_unvisited_shrinks(before: Seq<bool>, after: Seq<bool>, k: int)
    requires
        before.len() == after.len(),
        0 <= k < before.len(),
        !before[k],
        after[k],
        forall|i: int| 0 <= i < before.len() && before[i] ==> after[i],
    ensures
        unvisited(after) < unvisited(before),
    decreases before.len(),
{
    let n = before.len() - 1;
    if k == n {
        lemma_unvisited_monotone(before.drop_last(), after.drop_last());
    } else {
        lemma_unvisited_shrinks(before.drop_last(), after.drop_last(), k);
    }
}

/// Marking more nodes never raises the count of unvisited nodes.
pub proof fn lemma_unvisited_monotone(before: Seq<bool>, after: Seq<bool>)
    requires
        before.len() == after.len(),
        forall|i: int| 0 <= i < before.len() && before[i] ==> after[i],
    ensures
        unvisited(after) <= unvisited(before),
    decreases before.len(),
{
    if before.len() > 0 {
        lemma_unvisited_monotone(before.drop_last(), after.drop_last());
    }
}

/// The indices of `s` as mathematical integers.
pub open spec fn as_ints(s: Seq<usize>) -> Seq<int> {
    Seq::new(s.len(), |k: int| s[k] as int)
}

impl MessageGraph {
    /// The messages that `m` holds by value, in field order.
    pub open spec fn targets(&self, m: int) -> Seq<int> {
        as_ints(self.edges@[m]@)
    }

    /// Number of messages in the graph.
    pub open spec fn size(&self) -> int {
        self.edges@.len() as int
    }

    /// Every edge ends at a message of the graph.
    pub open spec fn well_formed(&self) -> bool {
        forall|m: int, k: int|
            0 <= m < self.edges@.len() && 0 <= k < self.edges@[m]@.len() ==> (
            #[trigger] self.edges@[m]@[k]) < self.edges@.len()
    }

    /// `m` holds `t` by value.
    pub open spec fn has_edge(&self, m: int, t: int) -> bool {
        0 <= m < self.edges@.len() && exists|k: int|
            0 <= k < self.edges@[m]@.len() && #[trigger] self.edges@[m]@[k] == t
    }

    /// `p` is a non-empty sequence of messages, each holding the next.
    pub open spec fn is_walk(&self, p: Seq<int>) -> bool {
        p.len() >= 1 && 0 <= p[0] < self.edges@.len() && forall|i: int|
            0 <= i < p.len() - 1 ==> #[trigger] self.has_edge(p[i], p[i + 1])
    }

    /// There is a walk of zero or more edges from `from` to `to`.
    pub open spec fn reaches(&self, from: int, to: int) -> bool {
        exists|p: Seq<int>| #[trigger] self.is_walk(p) && p.first() == from && p.last() == to
    }

    /// No message of the walk `p` is marked.
    pub open spec fn avoids(&self, p: Seq<int>, marks: Seq<bool>) -> bool {
        forall|i: int| 0 <= i < p.len() ==> 0 <= #[trigger] p[i] < marks.len() && !marks[p[i]]
    }

    /// There is a walk from `from` to `to` through unmarked messages only.
    pub open spec fn reaches_avoiding(&self, from: int, to: int, marks: Seq<bool>) -> bool {
        exists|p: Seq<int>|
            #[trigger] self.is_walk(p) && p.first() == from && p.last() == to && self.avoids(
                p,
                marks,
            )
    }

    /// No message transitively holds itself.
    pub open spec fn acyclic(&self) -> bool {
        forall|p: Seq<int>| #[trigger] self.is_walk(p) && p.len() >= 2 ==> p.first() != p.last()
    }

    /// Every message reaches itself, by the walk without edges.
    pub proof fn lemma_reaches_self(&self, m: int)
        requires
            0 <= m < self.size(),
        ensures
            self.reaches(m, m),
    {
        let p = seq![m];
        assert(self.is_walk(p));
        assert(p.first() == m && p.last() == m);
    }

    /// An edge followed by a walk is a walk.
    pub proof fn lemma_reaches_step(&self, m: int, t: int, to: int)
        requires
            self.has_edge(m, t),
            self.reaches(t, to),
        ensures
            self.reaches(m, to),
    {
        let p = choose|p: Seq<int>| #[trigger] self.is_walk(p) && p.first() == t && p.last() == to;
        let q = seq![m] + p;
        assert forall|i: int| 0 <= i < q.len() - 1 implies #[trigger] self.has_edge(
            q[i],
            q[i + 1],
        ) by {
            if i > 0 {
                assert(q[i] == p[i - 1]);
                assert(q[i + 1] == p[i - 1 + 1]);
                assert(self.has_edge(p[i - 1], p[i - 1 + 1]));
            } else {
                assert(q[1] == p[0]);
            }
        }
        assert(self.is_walk(q));
        assert(q.first() == m && q.last() == to);
    }

    /// In a graph without cycles no message is reachable from a message that
    /// it holds: nothing held by value ever needs an indirection.
    pub proof fn lemma_acyclic_never_nested(&self, m: int, t: int)
        requires
            self.acyclic(),
            self.has_edge(m, t),
        ensures
            !self.reaches(t, m),
    {
        if self.reaches(t, m) {
            let p = choose|p: Seq<int>| #[trigger] self.is_walk(p) && p.first() == t && p.last() == m;
            let q = seq![m] + p;
            assert forall|i: int| 0 <= i < q.len() - 1 implies #[trigger] self.has_edge(
                q[i],
                q[i + 1],
            ) by {
                if i > 0 {
                    assert(q[i] == p[i - 1]);
                    assert(q[i + 1] == p[i - 1 + 1]);
                    assert(self.has_edge(p[i - 1], p[i - 1 + 1]));
                } else {
                    assert(q[1] == p[0]);
                }
            }
            assert(self.is_walk(q));
            assert(q.first() == m && q.last() == m);
        }
    }

    /// A message that holds itself by value is reachable from itself, so the
    /// field that holds it is always stored behind an indirection.
    pub proof fn lemma_self_reference_nested(&self, m: int)
        requires
            self.has_edge(m, m),
        ensures
            self.reaches(m, m),
    {
        self.lemma_reaches_self(m);
    }

    /// Two messages that hold each other are each reachable from the other.
    pub proof fn lemma_mutual_reference_nested(&self, a: int, b: int)
        requires
            self.has_edge(a, b),
            self.has_edge(b, a),
        ensures
            self.reaches(a, b),
            self.reaches(b, a),
    {
        self.lemma_reaches_self(a);
        self.lemma_reaches_self(b);
        self.lemma_reaches_step(a, b, b);
        self.lemma_reaches_step(b, a, a);
    }

    /// Reachability depends on the edges alone: two graphs with the same
    /// edges answer every query alike.
    pub proof fn lemma_same_edges_same_reach(&self, other: &MessageGraph, from: int, to: int)
        requires
            self.size() == other.size(),
            forall|m: int, t: int| self.has_edge(m, t) == other.has_edge(m, t),
        ensures
            self.reaches(from, to) == other.reaches(from, to),
    {
        if self.reaches(from, to) {
            let p = choose|p: Seq<int>| #[trigger]
                self.is_walk(p) && p.first() == from && p.last() == to;
            assert forall|i: int| 0 <= i < p.len() - 1 implies #[trigger] other.has_edge(
                p[i],
                p[i + 1],
            ) by {
                assert(self.has_edge(p[i], p[i + 1]));
            }
            assert(other.is_walk(p));
        }
        if other.reaches(from, to) {
            let p = choose|p: Seq<int>| #[trigger]
                other.is_walk(p) && p.first() == from && p.last() == to;
            assert forall|i: int| 0 <= i < p.len() - 1 implies #[trigger] self.has_edge(
                p[i],
                p[i + 1],
            ) by {
                assert(other.has_edge(p[i], p[i + 1]));
            }
            assert(self.is_walk(p));
        }
    }

    /// A walk that starts inside a set closed under edges stays inside it.
    proof fn lemma_walk_stays(&self, closed: Seq<bool>, p: Seq<int>, i: int)
        requires
            closed.len() == self.size(),
            self.well_formed(),
            self.is_walk(p),
            closed[p[0]],
            forall|v: int, t: int|
                0 <= v < self.size() && closed[v] && #[trigger] self.has_edge(v, t) ==> 0 <= t
                    < self.size() && closed[t],
            0 <= i < p.len(),
        ensures
            0 <= p[i] < self.size(),
            closed[p[i]],
        decreases i,
    {
        if i > 0 {
            self.lemma_walk_stays(closed, p, i - 1);
            assert(self.has_edge(p[i - 1], p[i - 1 + 1]));
        }
    }

    /// A walk through messages unmarked at first, which starts at a newly
    /// marked message, runs through newly marked messages only, if every
    /// newly marked message has all its successors marked.
    proof fn lemma_walk_stays_marked(&self, entry: Seq<bool>, marks: Seq<bool>, p: Seq<int>, i: int)
        requires
            entry.len() == self.size(),
            marks.len() == self.size(),
            self.is_walk(p),
            self.avoids(p, entry),
            marks[p[0]],
            forall|v: int, t: int|
                0 <= v < self.size() && marks[v] && !entry[v] && #[trigger] self.has_edge(v, t)
                    ==> 0 <= t < self.size() && marks[t],
            0 <= i < p.len(),
        ensures
            marks[p[i]],
        decreases i,
    {
        if i > 0 {
            self.lemma_walk_stays_marked(entry, marks, p, i - 1);
            assert(self.has_edge(p[i - 1], p[i - 1 + 1]));
            assert(!entry[p[i - 1]]);
        }
    }

    /// An edge from an unmarked message, followed by a walk that avoids the
    /// marked ones, is such a walk.
    proof fn lemma_avoiding_step(&self, m: int, t: int, to: int, entry: Seq<bool>, later: Seq<bool>)
        requires
            entry.len() == later.len(),
            0 <= m < entry.len(),
            !entry[m],
            forall|v: int| 0 <= v < entry.len() && entry[v] ==> later[v],
            self.has_edge(m, t),
            self.reaches_avoiding(t, to, later),
        ensures
            self.reaches_avoiding(m, to, entry),
    {
        let p = choose|p: Seq<int>|
            #[trigger] self.is_walk(p) && p.first() == t && p.last() == to && self.avoids(
                p,
                later,
            );
        let q = seq![m] + p;
        assert forall|i: int| 0 <= i < q.len() - 1 implies #[trigger] self.has_edge(
            q[i],
            q[i + 1],
        ) by {
            if i > 0 {
                assert(q[i] == p[i - 1]);
                assert(q[i + 1] == p[i - 1 + 1]);
                assert(self.has_edge(p[i - 1], p[i - 1 + 1]));
            } else {
                assert(q[1] == p[0]);
            }
        }
        assert(self.is_walk(q));
        assert forall|i: int| 0 <= i < q.len() implies 0 <= #[trigger] q[i] < entry.len()
            && !entry[q[i]] by {
            if i > 0 {
                assert(q[i] == p[i - 1]);
                assert(!later[p[i - 1]]);
            }
        }
        assert(q.first() == m && q.last() == to);
    }

    /// A set of messages that is closed under edges, holds `from` and leaves
    /// out `to` witnesses that `to` cannot be reached from `from`.
    pub proof fn lemma_closed_set_separates(&self, closed: Seq<bool>, from: int, to: int)
        requires
            closed.len() == self.size(),
            self.well_formed(),
            0 <= from < self.size(),
            0 <= to < self.size(),
            closed[from],
            !closed[to],
            forall|v: int, t: int|
                0 <= v < self.size() && closed[v] && #[trigger] self.has_edge(v, t) ==> 0 <= t
                    < self.size() && closed[t],
        ensures
            !self.reaches(from, to),
    {
        if self.reaches(from, to) {
            let p = choose|p: Seq<int>| #[trigger]
                self.is_walk(p) && p.first() == from && p.last() == to;
            self.lemma_walk_stays(closed, p, p.len() - 1);
        }
    }

    /// Depth-first search for `to`, starting at `from` and skipping the
    /// messages already marked in `visited`: finds `to` exactly when a walk
    /// through unmarked messages leads to it.
    ///
    /// The search marks only messages that it entered: each newly marked
    /// message is reached from `from` through messages unmarked at entry,
    /// and `to` is never among them. On failure every newly marked message
    /// has all its successors marked, so the marked set only ever grows
    /// towards a set closed under edges.
    pub fn has_path(&self, from: usize, to: usize, visited: &mut Vec<bool>) -> (found: bool)
        requires
            self.well_formed(),
            from < self.size(),
            to < self.size(),
            old(visited)@.len() == self.size(),
        ensures
            final(visited)@.len() == self.size(),
            forall|v: int| 0 <= v < self.size() && old(visited)@[v] ==> final(visited)@[v],
            !old(visited)@[to as int] ==> !final(visited)@[to as int],
            forall|v: int|
                0 <= v < self.size() && #[trigger] final(visited)@[v] && !old(visited)@[v]
                    ==> self.reaches_avoiding(from as int, v, old(visited)@),
            found == self.reaches_avoiding(from as int, to as int, old(visited)@),
            found ==> self.reaches(from as int, to as int),
            !found ==> final(visited)@[from as int],
            !found ==> forall|v: int, t: int|
                0 <= v < self.size() && final(visited)@[v] && !old(visited)@[v]
                    && #[trigger] self.has_edge(v, t) ==> 0 <= t < self.size()
                    && final(visited)@[t],
        decreases unvisited(old(visited)@),
    {
        let ghost entry = visited@;
        if visited[from] {
            proof {
                assert forall|p: Seq<int>|
                    #[trigger] self.is_walk(p) && p.first() == from && p.last() == to implies
                    !self.avoids(p, entry) by {
                    assert(entry[p[0]]);
                }
            }
            return false;
        }
        if from == to {
            proof {
                self.lemma_reaches_self(from as int);
                let p = seq![from as int];
                assert(self.is_walk(p) && p.first() == from && p.last() == to);
                assert(self.avoids(p, entry));
            }
            return true;
        }
        visited.set(from, true);
        proof {
            let p = seq![from as int];
            assert(self.is_walk(p) && p.first() == from && p.last() == from);
            assert(self.avoids(p, entry));
        }
        let deps = &self.edges[from];
        let mut k: usize = 0;
        while k < deps.len()
            invariant
                forall|v: int|
                    0 <= v < self.size() && #[trigger] visited@[v] && !entry[v]
                        ==> self.reaches_avoiding(from as int, v, entry),
                self.well_formed(),
                from < self.size(),
                to < self.size(),
                from != to,
                entry == old(visited)@,
                entry.len() == self.size(),
                visited@.len() == self.size(),
                deps@ == self.edges@[from as int]@,
                k <= deps@.len(),
                !entry[from as int],
                visited@[from as int],
                !entry[to as int] ==> !visited@[to as int],
                forall|v: int| 0 <= v < self.size() && entry[v] ==> visited@[v],
                forall|j: int| 0 <= j < k ==> visited@[deps@[j] as int],
                forall|v: int, t: int|
                    0 <= v < self.size() && visited@[v] && !entry[v] && v != from
                        && #[trigger] self.has_edge(v, t) ==> 0 <= t < self.size() && visited@[t],
            decreases deps@.len() - k,
        {
            let dep = deps[k];
            let ghost before = visited@;
            proof {
                lemma_unvisited_shrinks(entry, before, from as int);
                assert(self.edges@[from as int]@[k as int] < self.size());
            }
            let found = self.has_path(dep, to, visited);
            proof {
                assert(self.has_edge(from as int, dep as int));
                assert forall|v: int|
                    0 <= v < self.size() && #[trigger] visited@[v] && !entry[v] implies
                    self.reaches_avoiding(from as int, v, entry) by {
                    if !before[v] {
                        self.lemma_avoiding_step(from as int, dep as int, v, entry, before);
                    }
                }
            }
            if found {
                proof {
                    self.lemma_reaches_step(from as int, dep as int, to as int);
                    self.lemma_avoiding_step(from as int, dep as int, to as int, entry, before);
                }
                return true;
            }
            k += 1;
        }
        proof {
            assert forall|v: int, t: int|
                0 <= v < self.size() && visited@[v] && !entry[v] && #[trigger] self.has_edge(
                    v,
                    t,
                ) implies 0 <= t < self.size() && visited@[t] by {
                if v == from {
                    let j = choose|j: int|
                        0 <= j < self.edges@[v]@.len() && #[trigger] self.edges@[v]@[j] == t;
                    assert(visited@[deps@[j] as int]);
                }
            }
            assert forall|p: Seq<int>|
                #[trigger] self.is_walk(p) && p.first() == from && p.last() == to implies
                !self.avoids(p, entry) by {
                if self.avoids(p, entry) {
                    self.lemma_walk_stays_marked(entry, visited@, p, p.len() - 1);
                    assert(!entry[p[p.len() - 1]]);
                }
            }
        }
        false
    }

    /// Whether `to` is transitively contained in `from`: true exactly when a
    /// walk of zero or more edges leads from `from` to `to`.
    pub fn is_nested(&self, from: usize, to: usize) -> (nested: bool)
        requires
            self.well_formed(),
            from < self.size(),
            to < self.size(),
        ensures
            nested == self.reaches(from as int, to as int),
            from == to ==> nested,
    {
        let mut visited: Vec<bool> = Vec::new();
        let mut i: usize = 0;
        while i < self.edges.len()
            invariant
                i <= self.edges@.len(),
                visited@.len() == i,
                forall|v: int| 0 <= v < i ==> !visited@[v],
            decreases self.edges@.len() - i,
        {
            visited.push(false);
            i += 1;
        }
        let found = self.has_path(from, to, &mut visited);
        proof {
            if !found {
                self.lemma_closed_set_separates(visited@, from as int, to as int);
            }
            if from == to {
                self.lemma_reaches_self(from as int);
            }
        }
        found
    }
}

} // verus!
