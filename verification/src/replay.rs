//! A debouncer run against a recorded line.
//!
//! [`debounce`] plays one call of the filter: it blocks until a transition
//! is confirmed. On a recorded line that is either the confirmed level with
//! the instant of the confirming sample, or nothing at all where the line
//! runs out of edges first. [`confirmed_transitions`] plays the filter until
//! it blocks for good.

use vstd::prelude::*;
use crate::debouncer::{Debouncer, Phase, Signal, Wait};
use crate::level::Level;
use crate::waveform::{
    edges_through, lemma_edges_through_bounded, lemma_edges_through_is,
    lemma_edges_through_splits, level_at, resting_level, strictly_increasing, Waveform,
};

verus! {

/// A confirmed transition: the new level and the instant of the sample
/// that confirmed it.
#[derive(Clone, Copy, Debug, PartialEq, Eq, Structural)]
pub struct Confirmed {
    pub level: Level,
    pub at: u64,
}

/// The window can still pass after the last edge without the clock
/// running over.
pub open spec fn fits(edges: Seq<u64>, window_ms: u64) -> bool {
    edges.len() > 0 ==> edges.last() + window_ms <= u64::MAX
}

/// The instant at which a round that starts at `start` takes its second
/// sample: one window after the first edge that follows `start`.
pub open spec fn sample_instant(edges: Seq<u64>, window_ms: u64, start: u64) -> u64
    recommends
        edges_through(edges, start as int) < edges.len(),
{
    (edges[edges_through(edges, start as int) as int] + window_ms) as u64
}

/// The second sample of a round lies after more edges than the first.
pub proof fn lemma_round_consumes_an_edge(edges: Seq<u64>, window_ms: u64, start: u64)
    requires
        strictly_increasing(edges),
        fits(edges, window_ms),
        edges_through(edges, start as int) < edges.len(),
    ensures
        sample_instant(edges, window_ms, start) == edges[edges_through(edges, start as int) as int]
            + window_ms,
        edges_through(edges, start as int) < edges_through(
            edges,
            sample_instant(edges, window_ms, start) as int,
        ),
        edges_through(edges, sample_instant(edges, window_ms, start) as int) <= edges.len(),
        start < sample_instant(edges, window_ms, start),
{
    lemma_edges_through_bounded(edges, sample_instant(edges, window_ms, start) as int);
    let seen = edges_through(edges, start as int) as int;
    assert(seen < edges.len() - 1 ==> edges[seen] < edges.last());
    lemma_edges_through_splits(edges, start as int);
    lemma_edges_through_splits(edges, sample_instant(edges, window_ms, start) as int);
}

/// What one call of the filter returns on the line `initial`, `edges` when
/// it is made at instant `start`: the first second sample that differs
/// from the first sample of its round, or nothing where the line has no
/// more edges to wake the filter.
pub open spec fn debounce_from(initial: Level, edges: Seq<u64>, window_ms: u64, start: u64) -> Option<
    Confirmed,
>
    decreases edges.len() - edges_through(edges, start as int),
    when strictly_increasing(edges) && fits(edges, window_ms)
{
    if edges_through(edges, start as int) >= edges.len() {
        None
    } else {
        let sample_at = sample_instant(edges, window_ms, start);
        if level_at(initial, edges, sample_at as int) != level_at(initial, edges, start as int) {
            Some(Confirmed { level: level_at(initial, edges, sample_at as int), at: sample_at })
        } else {
            proof {
                lemma_round_consumes_an_edge(edges, window_ms, start);
            }
            debounce_from(initial, edges, window_ms, sample_at)
        }
    }
}

/// A confirmed transition lies after more edges than the call that
/// reported it.
pub proof fn lemma_report_consumes_an_edge(
    initial: Level,
    edges: Seq<u64>,
    window_ms: u64,
    start: u64,
)
    requires
        strictly_increasing(edges),
        fits(edges, window_ms),
        debounce_from(initial, edges, window_ms, start) is Some,
    ensures
        edges_through(edges, start as int) < edges_through(
            edges,
            debounce_from(initial, edges, window_ms, start)->0.at as int,
        ),
        edges_through(edges, debounce_from(initial, edges, window_ms, start)->0.at as int)
            <= edges.len(),
        start < debounce_from(initial, edges, window_ms, start)->0.at,
    decreases edges.len() - edges_through(edges, start as int),
{
    lemma_round_consumes_an_edge(edges, window_ms, start);
    let sample_at = sample_instant(edges, window_ms, start);
    if level_at(initial, edges, sample_at as int) == level_at(initial, edges, start as int) {
        lemma_report_consumes_an_edge(initial, edges, window_ms, sample_at);
    }
}

/// Every transition that the filter confirms when it is called again and
/// again from instant `start`, each call made at the instant of the
/// report before it.
pub open spec fn reports_from(initial: Level, edges: Seq<u64>, window_ms: u64, start: u64) -> Seq<
    Confirmed,
>
    decreases edges.len() - edges_through(edges, start as int),
    when strictly_increasing(edges) && fits(edges, window_ms)
{
    let first = debounce_from(initial, edges, window_ms, start);
    if first is None {
        Seq::empty()
    } else {
        proof {
            lemma_report_consumes_an_edge(initial, edges, window_ms, start);
        }
        seq![first->0] + reports_from(initial, edges, window_ms, first->0.at)
    }
}

/// How far a phase is from the end of its round.
pub open spec fn steps_left(phase: Phase) -> nat {
    match phase {
        Phase::Priming => 3,
        Phase::Listening { .. } => 2,
        Phase::Settling { .. } => 1,
        Phase::Confirming { .. } => 0,
    }
}

/// Plays one call of the filter on a recorded line, from instant `start`.
pub fn debounce(line: &Waveform, window_ms: u64, start: u64) -> (report: Option<Confirmed>)
    requires
        line.wf(),
        fits(line.edges(), window_ms),
    ensures
        report == debounce_from(line.initial(), line.edges(), window_ms, start),
{
    let mut debouncer = Debouncer::new(window_ms);
    let mut now: u64 = start;
    let ghost mut origin: u64 = start;
    loop
        invariant
            line.wf(),
            fits(line.edges(), window_ms),
            debouncer.window() == window_ms,
            debounce_from(line.initial(), line.edges(), window_ms, origin) == debounce_from(
                line.initial(),
                line.edges(),
                window_ms,
                start,
            ),
            match debouncer.phase() {
                Phase::Priming => now == origin,
                Phase::Listening { reference } => now == origin && reference == level_at(
                    line.initial(),
                    line.edges(),
                    origin as int,
                ),
                Phase::Settling { reference } => {
                    &&& reference == level_at(line.initial(), line.edges(), origin as int)
                    &&& edges_through(line.edges(), origin as int) < line.edges().len()
                    &&& now == line.edges()[edges_through(line.edges(), origin as int) as int]
                },
                Phase::Confirming { reference } => {
                    &&& reference == level_at(line.initial(), line.edges(), origin as int)
                    &&& edges_through(line.edges(), origin as int) < line.edges().len()
                    &&& now == sample_instant(line.edges(), window_ms, origin)
                },
            },
        decreases
                line.edges().len() - edges_through(line.edges(), origin as int),
                steps_left(debouncer.phase()),
    {
        proof {
            lemma_edges_through_bounded(line.edges(), origin as int);
        }
        match debouncer.pending() {
            Wait::Sample => {
                let level = line.level_at(now);
                let ghost before = debouncer.phase();
                match debouncer.advance(Signal::Level(level)) {
                    Some(confirmed) => {
                        return Some(Confirmed { level: confirmed, at: now });
                    },
                    None => {
                        proof {
                            if before is Confirming {
                                lemma_round_consumes_an_edge(line.edges(), window_ms, origin);
                                lemma_edges_through_bounded(line.edges(), now as int);
                                origin = now;
                            }
                        }
                    },
                }
            },
            Wait::Edge => {
                match line.next_edge_after(now) {
                    None => {
                        return None;
                    },
                    Some(edge) => {
                        now = edge;
                        debouncer.advance(Signal::Edge);
                    },
                }
            },
            Wait::Window { ms } => {
                proof {
                    lemma_round_consumes_an_edge(line.edges(), window_ms, origin);
                }
                now = now + ms;
                debouncer.advance(Signal::Elapsed);
            },
        }
    }
}

/// Plays the filter on a recorded line until it blocks for good: each call
/// is made at the instant of the report before it, the first at `start`.
pub fn confirmed_transitions(line: &Waveform, window_ms: u64, start: u64) -> (reports: Vec<
    Confirmed,
>)
    requires
        line.wf(),
        fits(line.edges(), window_ms),
    ensures
        reports@ == reports_from(line.initial(), line.edges(), window_ms, start),
{
    let mut reports: Vec<Confirmed> = Vec::new();
    let mut from: u64 = start;
    loop
        invariant
            line.wf(),
            fits(line.edges(), window_ms),
            reports@ + reports_from(line.initial(), line.edges(), window_ms, from) == reports_from(
                line.initial(),
                line.edges(),
                window_ms,
                start,
            ),
        decreases line.edges().len() - edges_through(line.edges(), from as int),
    {
        proof {
            lemma_edges_through_bounded(line.edges(), from as int);
        }
        match debounce(line, window_ms, from) {
            None => {
                assert(reports@ + Seq::<Confirmed>::empty() =~= reports@);
                return reports;
            },
            Some(report) => {
                proof {
                    lemma_report_consumes_an_edge(line.initial(), line.edges(), window_ms, from);
                    lemma_edges_through_bounded(line.edges(), report.at as int);
                    let rest = reports_from(line.initial(), line.edges(), window_ms, report.at);
                    assert(reports@.push(report) + rest =~= reports@ + (seq![report] + rest));
                }
                reports.push(report);
                from = report.at;
            },
        }
    }
}

/// Debounce stability. A call at `start` is woken by the first edge after
/// it. When the line comes to rest at the edge `settle` before the window
/// has passed, holds that level for the length of a window at least, and
/// that level is not the one the call found, then the call returns the
/// level of rest, at the instant one window after the edge that woke it,
/// however many edges lie between the two.
pub proof fn lemma_settled_level_is_reported(
    initial: Level,
    edges: Seq<u64>,
    window_ms: u64,
    start: u64,
    settle: int,
)
    requires
        strictly_increasing(edges),
        fits(edges, window_ms),
        edges_through(edges, start as int) <= settle < edges.len(),
        edges[settle] <= edges[edges_through(edges, start as int) as int] + window_ms,
        settle + 1 < edges.len() ==> edges[settle + 1] > edges[settle] + window_ms,
        level_at(initial, edges, edges[settle] as int) != level_at(initial, edges, start as int),
    ensures
        debounce_from(initial, edges, window_ms, start) == Some(
            Confirmed {
                level: level_at(initial, edges, edges[settle] as int),
                at: sample_instant(edges, window_ms, start),
            },
        ),
{
    lemma_round_consumes_an_edge(edges, window_ms, start);
    let seen = edges_through(edges, start as int) as int;
    let sample_at = sample_instant(edges, window_ms, start);
    assert(seen < settle ==> edges[seen] < edges[settle]);
    lemma_edges_through_is(edges, edges[settle] as int, settle + 1);
    lemma_edges_through_is(edges, sample_at as int, settle + 1);
}

/// Debounce stability, for a line that comes to rest for good. When every
/// edge after `start` falls within one window of the first of them, and the
/// level of rest is not the one found at `start`, the filter confirms the
/// level of rest exactly once and nothing else.
pub proof fn lemma_settled_line_reports_once(
    initial: Level,
    edges: Seq<u64>,
    window_ms: u64,
    start: u64,
)
    requires
        strictly_increasing(edges),
        fits(edges, window_ms),
        edges_through(edges, start as int) < edges.len(),
        edges.last() <= edges[edges_through(edges, start as int) as int] + window_ms,
        resting_level(initial, edges) != level_at(initial, edges, start as int),
    ensures
        reports_from(initial, edges, window_ms, start) == seq![
            Confirmed {
                level: resting_level(initial, edges),
                at: sample_instant(edges, window_ms, start),
            },
        ],
{
    let last = edges.len() - 1;
    let sample_at = sample_instant(edges, window_ms, start);
    lemma_round_consumes_an_edge(edges, window_ms, start);
    lemma_edges_through_is(edges, edges[last] as int, edges.len() as int);
    lemma_settled_level_is_reported(initial, edges, window_ms, start, last);
    lemma_edges_through_is(edges, sample_at as int, edges.len() as int);
    assert(debounce_from(initial, edges, window_ms, sample_at) is None);
    assert(reports_from(initial, edges, window_ms, sample_at) == Seq::<Confirmed>::empty());
    assert(reports_from(initial, edges, window_ms, start) =~= seq![
        Confirmed { level: resting_level(initial, edges), at: sample_at },
    ]);
}

/// No false transition. When the line is back on the level that the call
/// found by the time the window has passed, the call reports nothing for
/// that excursion: it goes on as a call made at that instant would, and
/// whatever it reports later lies after that instant.
pub proof fn lemma_bounce_is_not_reported(
    initial: Level,
    edges: Seq<u64>,
    window_ms: u64,
    start: u64,
)
    requires
        strictly_increasing(edges),
        fits(edges, window_ms),
        edges_through(edges, start as int) < edges.len(),
        level_at(initial, edges, sample_instant(edges, window_ms, start) as int) == level_at(
            initial,
            edges,
            start as int,
        ),
    ensures
        debounce_from(initial, edges, window_ms, start) == debounce_from(
            initial,
            edges,
            window_ms,
            sample_instant(edges, window_ms, start),
        ),
        reports_from(initial, edges, window_ms, start) == reports_from(
            initial,
            edges,
            window_ms,
            sample_instant(edges, window_ms, start),
        ),
        debounce_from(initial, edges, window_ms, start) matches Some(report) ==> report.at
            > sample_instant(edges, window_ms, start),
{
    let sample_at = sample_instant(edges, window_ms, start);
    lemma_round_consumes_an_edge(edges, window_ms, start);
    if debounce_from(initial, edges, window_ms, sample_at) is Some {
        lemma_report_consumes_an_edge(initial, edges, window_ms, sample_at);
    }
}

/// No false transition, for a line that comes to rest for good. When every
/// edge after `start` falls within one window of the first of them, and the
/// line rests on the level found at `start`, the filter reports nothing.
pub proof fn lemma_settled_bounce_reports_nothing(
    initial: Level,
    edges: Seq<u64>,
    window_ms: u64,
    start: u64,
)
    requires
        strictly_increasing(edges),
        fits(edges, window_ms),
        edges_through(edges, start as int) < edges.len(),
        edges.last() <= edges[edges_through(edges, start as int) as int] + window_ms,
        resting_level(initial, edges) == level_at(initial, edges, start as int),
    ensures
        reports_from(initial, edges, window_ms, start) == Seq::<Confirmed>::empty(),
{
    let sample_at = sample_instant(edges, window_ms, start);
    lemma_round_consumes_an_edge(edges, window_ms, start);
    lemma_edges_through_is(edges, sample_at as int, edges.len() as int);
    lemma_bounce_is_not_reported(initial, edges, window_ms, start);
    assert(debounce_from(initial, edges, window_ms, sample_at) is None);
}

/// What a call reports is what the line shows: a confirmed level is the
/// level of the line at the instant of the report and differs from the
/// level that the call found; a call that reports nothing found the line
/// on the level on which it rests.
pub proof fn lemma_report_is_a_change(initial: Level, edges: Seq<u64>, window_ms: u64, start: u64)
    requires
        strictly_increasing(edges),
        fits(edges, window_ms),
    ensures
        match debounce_from(initial, edges, window_ms, start) {
            Some(report) => {
                &&& report.level == level_at(initial, edges, report.at as int)
                &&& report.level != level_at(initial, edges, start as int)
            },
            None => level_at(initial, edges, start as int) == resting_level(initial, edges),
        },
    decreases edges.len() - edges_through(edges, start as int),
{
    lemma_edges_through_bounded(edges, start as int);
    if edges_through(edges, start as int) < edges.len() {
        lemma_round_consumes_an_edge(edges, window_ms, start);
        let sample_at = sample_instant(edges, window_ms, start);
        if level_at(initial, edges, sample_at as int) == level_at(initial, edges, start as int) {
            lemma_report_is_a_change(initial, edges, window_ms, sample_at);
        }
    }
}

/// The level that the filter holds confirmed after `reports`, where it
/// found the line on `found` before the first of them.
pub open spec fn level_held(found: Level, reports: Seq<Confirmed>) -> Level {
    if reports.len() == 0 {
        found
    } else {
        reports.last().level
    }
}

/// The filter follows the line. On any recorded line, each confirmed
/// level differs from the one confirmed before it, the first from the
/// level found at `start`; and when the filter blocks for good, the level
/// it holds is the level on which the line rests.
pub proof fn lemma_reports_follow_the_line(
    initial: Level,
    edges: Seq<u64>,
    window_ms: u64,
    start: u64,
)
    requires
        strictly_increasing(edges),
        fits(edges, window_ms),
    ensures
        forall|i: int|
            0 <= i < reports_from(initial, edges, window_ms, start).len() ==> (#[trigger] reports_from(
                initial,
                edges,
                window_ms,
                start,
            )[i]).level != level_held(
                level_at(initial, edges, start as int),
                reports_from(initial, edges, window_ms, start).take(i),
            ),
        level_held(
            level_at(initial, edges, start as int),
            reports_from(initial, edges, window_ms, start),
        ) == resting_level(initial, edges),
    decreases edges.len() - edges_through(edges, start as int),
{
    let found = level_at(initial, edges, start as int);
    let reports = reports_from(initial, edges, window_ms, start);
    lemma_report_is_a_change(initial, edges, window_ms, start);
    match debounce_from(initial, edges, window_ms, start) {
        None => {},
        Some(first) => {
            lemma_report_consumes_an_edge(initial, edges, window_ms, start);
            lemma_edges_through_bounded(edges, first.at as int);
            lemma_reports_follow_the_line(initial, edges, window_ms, first.at);
            let rest = reports_from(initial, edges, window_ms, first.at);
            assert(reports == seq![first] + rest);
            assert forall|i: int| 0 <= i < reports.len() implies (#[trigger] reports[i]).level
                != level_held(found, reports.take(i)) by {
                if i == 0 {
                    assert(reports.take(0).len() == 0);
                } else {
                    assert(reports[i] == rest[i - 1]);
                    assert(rest[i - 1].level != level_held(first.level, rest.take(i - 1)));
                    assert(reports.take(i) =~= seq![first] + rest.take(i - 1));
                    if i == 1 {
                        assert(rest.take(0).len() == 0);
                        assert(reports.take(1).last() == first);
                    } else {
                        assert(reports.take(i).last() == rest.take(i - 1).last());
                    }
                }
            }
            if rest.len() == 0 {
                assert(reports.last() == first);
            } else {
                assert(reports.last() == rest.last());
            }
        },
    }
}

} // verus!
