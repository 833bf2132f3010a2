//! A recorded line: a starting level and the instants at which it toggles.
//!
//! Instants are milliseconds on a monotonic clock. An edge at instant `t`
//! takes effect at `t`: a sample taken at `t` already sees the new level.

use vstd::prelude::*;
use crate::level::Level;

verus! {

/// Every edge lies strictly after the one before it.
pub open spec fn strictly_increasing(edges: Seq<u64>) -> bool {
    forall|i: int, j: int| 0 <= i < j < edges.len() ==> edges[i] < edges[j]
}

/// The number of edges at or before instant `t`.
pub open spec fn edges_through(edges: Seq<u64>, t: int) -> nat
    decreases edges.len(),
{
    if edges.len() == 0 {
        0
    } else {
        edges_through(edges.drop_last(), t) + if edges.last() <= t { 1nat } else { 0nat }
    }
}

/// The level of the line at instant `t`: the starting level, toggled once
/// for each edge at or before `t`.
pub open spec fn level_at(initial: Level, edges: Seq<u64>, t: int) -> Level {
    if edges_through(edges, t) % 2 == 0 {
        initial
    } else {
        initial.flipped()
    }
}

/// The level on which the line comes to rest after its last edge.
pub open spec fn resting_level(initial: Level, edges: Seq<u64>) -> Level {
    if edges.len() % 2 == 0 {
        initial
    } else {
        initial.flipped()
    }
}

/// No instant has more edges behind it than the line has.
pub proof fn lemma_edges_through_bounded(edges: Seq<u64>, t: int)
    ensures
        edges_through(edges, t) <= edges.len(),
    decreases edges.len(),
{
    if edges.len() > 0 {
        lemma_edges_through_bounded(edges.drop_last(), t);
    }
}

/// On an ordered line the edges at or before `t` are exactly the first
/// `edges_through(edges, t)` of them.
pub proof fn lemma_edges_through_splits(edges: Seq<u64>, t: int)
    requires
        strictly_increasing(edges),
    ensures
        forall|i: int| 0 <= i < edges_through(edges, t) ==> edges[i] <= t,
        forall|i: int| edges_through(edges, t) <= i < edges.len() ==> edges[i] > t,
    decreases edges.len(),
{
    if edges.len() > 0 {
        let front = edges.drop_last();
        lemma_edges_through_splits(front, t);
        lemma_edges_through_bounded(front, t);
        assert forall|i: int| 0 <= i < edges_through(edges, t) implies edges[i] <= t by {
            if i < front.len() {
                assert(edges[i] == front[i]);
                if i >= edges_through(front, t) {
                    assert(edges[i] < edges.last());
                }
            }
        }
        assert forall|i: int| edges_through(edges, t) <= i < edges.len() implies edges[i] > t by {
            if i < front.len() {
                assert(edges[i] == front[i]);
            }
        }
    }
}

/// On an ordered line, a position that divides the edges at or before `t`
/// from the later ones is the count of edges through `t`.
pub proof fn lemma_edges_through_is(edges: Seq<u64>, t: int, k: int)
    requires
        strictly_increasing(edges),
        0 <= k <= edges.len(),
        k > 0 ==> edges[k - 1] <= t,
        k < edges.len() ==> edges[k] > t,
    ensures
        edges_through(edges, t) == k,
{
    lemma_edges_through_splits(edges, t);
    lemma_edges_through_bounded(edges, t);
    let n = edges_through(edges, t) as int;
    if n < k {
        assert(edges[n] > t);
        assert(n < k - 1 ==> edges[n] < edges[k - 1]);
    } else if n > k {
        assert(edges[n - 1] <= t);
        assert(k < n - 1 ==> edges[k] < edges[n - 1]);
    }
}

/// A recorded line.
pub struct Waveform {
    initial: Level,
    edges: Vec<u64>,
}

impl Waveform {
    /// The level before the first edge.
    pub closed spec fn initial(self) -> Level {
        self.initial
    }

    /// The instants of the edges, in order.
    pub closed spec fn edges(self) -> Seq<u64> {
        self.edges@
    }

    /// The instant of the last edge, or zero for a line without edges.
    pub open spec fn horizon(self) -> int {
        if self.edges().len() == 0 {
            0
        } else {
            self.edges().last() as int
        }
    }

    /// The edges of a recorded line are ordered.
    pub open spec fn wf(self) -> bool {
        strictly_increasing(self.edges())
    }

    /// A line that rests on `initial` and has no edges yet.
    pub fn new(initial: Level) -> (line: Waveform)
        ensures
            line.wf(),
            line.initial() == initial,
            line.edges() == Seq::<u64>::empty(),
    {
        Waveform { initial, edges: Vec::new() }
    }

    /// Records an edge at instant `at`. The edge is taken only if it lies
    /// after every edge recorded so far; the result says whether it was.
    pub fn push_edge(&mut self, at: u64) -> (taken: bool)
        requires
            old(self).wf(),
        ensures
            final(self).wf(),
            final(self).initial() == old(self).initial(),
            taken == (old(self).edges().len() == 0 || old(self).horizon() < at),
            taken ==> final(self).edges() == old(self).edges().push(at),
            !taken ==> final(self).edges() == old(self).edges(),
    {
        let n = self.edges.len();
        if n == 0 || self.edges[n - 1] < at {
            self.edges.push(at);
            true
        } else {
            false
        }
    }

    /// The number of edges at or before instant `t`.
    pub fn edges_through(&self, t: u64) -> (count: usize)
        requires
            self.wf(),
        ensures
            count == edges_through(self.edges(), t as int),
            count <= self.edges().len(),
    {
        let mut k: usize = 0;
        while k < self.edges.len() && self.edges[k] <= t
            invariant
                k <= self.edges.len(),
                forall|i: int| 0 <= i < k ==> self.edges@[i] <= t,
            decreases self.edges.len() - k,
        {
            k += 1;
        }
        proof {
            lemma_edges_through_is(self.edges@, t as int, k as int);
        }
        k
    }

    /// The level of the line at instant `t`.
    pub fn level_at(&self, t: u64) -> (level: Level)
        requires
            self.wf(),
        ensures
            level == level_at(self.initial(), self.edges(), t as int),
    {
        let k = self.edges_through(t);
        if k % 2 == 0 {
            self.initial
        } else {
            self.initial.toggled()
        }
    }

    /// The first edge strictly after instant `t`, if the line has one.
    pub fn next_edge_after(&self, t: u64) -> (edge: Option<u64>)
        requires
            self.wf(),
        ensures
            edge == if edges_through(self.edges(), t as int) < self.edges().len() {
                Some(self.edges()[edges_through(self.edges(), t as int) as int])
            } else {
                None
            },
    {
        let k = self.edges_through(t);
        if k < self.edges.len() {
            Some(self.edges[k])
        } else {
            None
        }
    }

    /// The instant of the last edge, or zero for a line without edges.
    pub fn last_edge(&self) -> (at: u64)
        ensures
            at == self.horizon(),
    {
        let n = self.edges.len();
        if n == 0 {
            0
        } else {
            self.edges[n - 1]
        }
    }

    /// The level on which the line comes to rest after its last edge.
    pub fn resting_level(&self) -> (level: Level)
        ensures
            level == resting_level(self.initial(), self.edges()),
    {
        if self.edges.len() % 2 == 0 {
            self.initial
        } else {
            self.initial.toggled()
        }
    }
}

} // verus!
