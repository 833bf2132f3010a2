//! A button task run against a recorded line, from the raw edges to the
//! markers of each press.
//!
//! The run performs what the task's agenda asks for on a clock of its own:
//! a sample takes no time, an edge comes when the line has one, a window
//! ends when it is due, and a deadline that expires no later than the
//! outstanding wait ends is reported first.

use vstd::prelude::*;
use crate::classifier::{
    deadline_of, elapsed, emissions_for, Emission, Marker, Stage, LONG_THRESHOLD_MS,
    SHORT_THRESHOLD_MS,
};
use crate::debouncer::{Phase, Signal, Wait};
use crate::level::Level;
use crate::replay::{
    debounce_from, fits, lemma_bounce_is_not_reported, lemma_round_consumes_an_edge,
    reports_from, steps_left, Confirmed,
};
use crate::task::ButtonTask;
use crate::waveform::{
    edges_through, lemma_edges_through_bounded, lemma_edges_through_splits, level_at, Waveform,
};

verus! {

/// The markers of the deadlines that have expired by the time a press has
/// reached `stage`.
pub open spec fn fired(stage: Stage) -> Seq<Emission> {
    match stage {
        Stage::Idle => Seq::empty(),
        Stage::Pressed { .. } => Seq::empty(),
        Stage::Held { .. } => seq![
            Emission { marker: Marker::Held, elapsed_ms: SHORT_THRESHOLD_MS },
        ],
        Stage::LongHeld { .. } => seq![
            Emission { marker: Marker::Held, elapsed_ms: SHORT_THRESHOLD_MS },
            Emission { marker: Marker::LongHeld, elapsed_ms: LONG_THRESHOLD_MS },
        ],
    }
}

/// What a press at `since` emits when the release never comes: the marker
/// of each deadline that the clock still reaches.
pub open spec fn unreleased(since: u64) -> Seq<Emission> {
    if since + SHORT_THRESHOLD_MS > u64::MAX {
        Seq::empty()
    } else if since + LONG_THRESHOLD_MS > u64::MAX {
        seq![Emission { marker: Marker::Held, elapsed_ms: SHORT_THRESHOLD_MS }]
    } else {
        seq![
            Emission { marker: Marker::Held, elapsed_ms: SHORT_THRESHOLD_MS },
            Emission { marker: Marker::LongHeld, elapsed_ms: LONG_THRESHOLD_MS },
        ]
    }
}

/// What a classifier emits for a run of confirmed transitions, of which
/// the first is a press, the second its release, and so on in turn: for
/// each press with its release the markers of a press of that duration,
/// and for a last press without release the deadlines that expire.
pub open spec fn emissions_of(reports: Seq<Confirmed>) -> Seq<Emission>
    decreases reports.len(),
{
    if reports.len() == 0 {
        Seq::empty()
    } else if reports.len() == 1 {
        unreleased(reports[0].at)
    } else {
        emissions_for(elapsed(reports[0].at, reports[1].at)) + emissions_of(reports.skip(2))
    }
}

/// The number of deadlines that a press in `stage` has still before it.
pub open spec fn deadlines_left(stage: Stage) -> nat {
    match stage {
        Stage::Pressed { .. } => 2,
        Stage::Held { .. } => 1,
        _ => 0,
    }
}

/// Runs a button task on a recorded line from instant `start` until the
/// task blocks for good, and returns everything it emitted. The result is
/// what the confirmed transitions of the line amount to, taken in turn as
/// press and release.
pub fn watch(line: &Waveform, window_ms: u64, start: u64) -> (emissions: Vec<Emission>)
    requires
        line.wf(),
        fits(line.edges(), window_ms),
    ensures
        emissions@ == emissions_of(
            reports_from(line.initial(), line.edges(), window_ms, start),
        ),
{
    let mut task = ButtonTask::new(window_ms);
    let mut emissions: Vec<Emission> = Vec::new();
    let mut origin: u64 = start;
    let mut woken_at: u64 = start;
    let mut now: u64 = start;
    let ghost mut before: Seq<Emission> = Seq::empty();
    let ghost mut press: Confirmed = Confirmed { level: Level::Low, at: 0 };
    let ghost goal = emissions_of(reports_from(line.initial(), line.edges(), window_ms, start));
    proof {
        assert(emissions@ + goal =~= goal);
    }
    loop
        invariant
            line.wf(),
            fits(line.edges(), window_ms),
            goal == emissions_of(reports_from(line.initial(), line.edges(), window_ms, start)),
            task.window() == window_ms,
            origin <= now,
            match task.phase() {
                Phase::Priming => now == origin,
                Phase::Listening { reference } => {
                    &&& reference == level_at(line.initial(), line.edges(), origin as int)
                    &&& edges_through(line.edges(), origin as int) < line.edges().len() ==> now
                        <= line.edges()[edges_through(line.edges(), origin as int) as int]
                },
                Phase::Settling { reference } => {
                    &&& reference == level_at(line.initial(), line.edges(), origin as int)
                    &&& edges_through(line.edges(), origin as int) < line.edges().len()
                    &&& woken_at == line.edges()[edges_through(line.edges(), origin as int) as int]
                    &&& now <= woken_at + window_ms
                },
                Phase::Confirming { reference } => {
                    &&& reference == level_at(line.initial(), line.edges(), origin as int)
                    &&& edges_through(line.edges(), origin as int) < line.edges().len()
                    &&& woken_at == line.edges()[edges_through(line.edges(), origin as int) as int]
                    &&& now == woken_at + window_ms
                },
            },
            match task.stage() {
                Stage::Idle => true,
                Stage::Pressed { since } => since == press.at && since <= now,
                Stage::Held { since } => since == press.at && since + SHORT_THRESHOLD_MS <= now,
                Stage::LongHeld { since } => since == press.at && since + LONG_THRESHOLD_MS <= now,
            },
            deadline_of(task.stage()) matches Some(deadline) ==> now < deadline,
            task.stage() is Idle ==> emissions@ + emissions_of(
                reports_from(line.initial(), line.edges(), window_ms, origin),
            ) == goal,
            !(task.stage() is Idle) ==> {
                &&& emissions@ == before + fired(task.stage())
                &&& before + emissions_of(
                    seq![press] + reports_from(line.initial(), line.edges(), window_ms, origin),
                ) == goal
            },
        decreases
                line.edges().len() - edges_through(line.edges(), origin as int),
                steps_left(task.phase()),
                deadlines_left(task.stage()),
    {
        proof {
            lemma_edges_through_bounded(line.edges(), origin as int);
            lemma_edges_through_splits(line.edges(), origin as int);
            if edges_through(line.edges(), origin as int) < line.edges().len() {
                lemma_round_consumes_an_edge(line.edges(), window_ms, origin);
            }
        }
        let ghost reports = reports_from(line.initial(), line.edges(), window_ms, origin);
        let agenda = task.agenda();
        let wake: Option<u64> = match agenda.wait {
            Wait::Sample => Some(now),
            Wait::Edge => line.next_edge_after(origin),
            Wait::Window { ms } => Some(woken_at + ms),
        };
        let deadline_first = match (agenda.deadline, wake) {
            (Some(deadline), Some(at)) => deadline <= at,
            (Some(_), None) => true,
            (None, _) => false,
        };
        if deadline_first {
            if let Some(deadline) = agenda.deadline {
                now = deadline;
            }
            if let Some(emission) = task.on_deadline() {
                emissions.push(emission);
            }
            assert(emissions@ =~= before + fired(task.stage()));
        } else {
            let at = match wake {
                Some(at) => at,
                None => {
                    proof {
                        assert(reports =~= Seq::<Confirmed>::empty());
                        assert(emissions@ + Seq::<Emission>::empty() =~= emissions@);
                        assert((seq![press] + reports).len() == 1);
                        assert((seq![press] + reports)[0] == press);
                        assert(fired(task.stage()) =~= unreleased(press.at) || task.stage() is Idle);
                    }
                    return emissions;
                },
            };
            let signal = match agenda.wait {
                Wait::Sample => Signal::Level(line.level_at(at)),
                Wait::Edge => Signal::Edge,
                Wait::Window { .. } => Signal::Elapsed,
            };
            let ghost stage_before = task.stage();
            let ghost phase_before = task.phase();
            let ghost emitted_before = emissions@;
            now = at;
            if let Some(emission) = task.on_signal(signal, now) {
                emissions.push(emission);
            }
            match agenda.wait {
                Wait::Sample => {
                    proof {
                        if phase_before is Confirming {
                            let first = debounce_from(
                                line.initial(),
                                line.edges(),
                                window_ms,
                                origin,
                            );
                            let later = reports_from(line.initial(), line.edges(), window_ms, now);
                            if level_at(line.initial(), line.edges(), now as int) == level_at(
                                line.initial(),
                                line.edges(),
                                origin as int,
                            ) {
                                lemma_bounce_is_not_reported(
                                    line.initial(),
                                    line.edges(),
                                    window_ms,
                                    origin,
                                );
                            } else {
                                let report = first->0;
                                assert(report.at == now);
                                assert(reports =~= seq![report] + later);
                                if stage_before is Idle {
                                    before = emitted_before;
                                    press = report;
                                    assert(before + fired(task.stage()) =~= before);
                                } else {
                                    let whole = seq![press] + reports;
                                    assert(whole[0] == press);
                                    assert(whole[1] == report);
                                    assert(whole.skip(2) =~= later);
                                    assert(fired(stage_before).push(emissions@.last())
                                        =~= emissions_for(elapsed(press.at, report.at)));
                                    assert(emissions@ =~= before + emissions_for(
                                        elapsed(press.at, report.at),
                                    ));
                                    assert(emissions@ + emissions_of(later) =~= before
                                        + (emissions_for(elapsed(press.at, report.at))
                                        + emissions_of(later)));
                                }
                            }
                        }
                    }
                    origin = now;
                },
                Wait::Edge => {
                    woken_at = now;
                },
                Wait::Window { .. } => {},
            }
        }
    }
}

} // verus!
