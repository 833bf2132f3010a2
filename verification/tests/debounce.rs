use button_panel::debouncer::{Debouncer, Signal, Wait};
use button_panel::level::Level;
use button_panel::replay::{confirmed_transitions, debounce, Confirmed};
use button_panel::waveform::Waveform;

fn line(initial: Level, edges: &[u64]) -> Waveform {
    let mut line = Waveform::new(initial);
    for &edge in edges {
        assert!(line.push_edge(edge));
    }
    line
}

#[test]
fn level_toggles() {
    assert_eq!(Level::Low.toggled(), Level::High);
    assert_eq!(Level::High.toggled(), Level::Low);
    assert!(Level::High.is_high());
    assert!(!Level::Low.is_high());
}

#[test]
fn waveform_takes_only_later_edges() {
    let mut line = Waveform::new(Level::High);
    assert!(line.push_edge(0));
    assert!(line.push_edge(5));
    assert!(!line.push_edge(5));
    assert!(!line.push_edge(3));
    assert!(line.push_edge(6));
    assert_eq!(line.last_edge(), 6);
    assert_eq!(line.edges_through(6), 3);
}

#[test]
fn waveform_without_edges_rests_on_its_initial_level() {
    let line = Waveform::new(Level::Low);
    assert_eq!(line.last_edge(), 0);
    assert_eq!(line.edges_through(u64::MAX), 0);
    assert_eq!(line.level_at(0), Level::Low);
    assert_eq!(line.level_at(u64::MAX), Level::Low);
    assert_eq!(line.next_edge_after(0), None);
    assert_eq!(line.resting_level(), Level::Low);
}

#[test]
fn waveform_level_changes_at_the_edge() {
    let line = line(Level::High, &[100, 101, 103]);
    assert_eq!(line.level_at(99), Level::High);
    assert_eq!(line.level_at(100), Level::Low);
    assert_eq!(line.level_at(101), Level::High);
    assert_eq!(line.level_at(102), Level::High);
    assert_eq!(line.level_at(103), Level::Low);
    assert_eq!(line.level_at(1_000), Level::Low);
    assert_eq!(line.resting_level(), Level::Low);
    assert_eq!(line.edges_through(99), 0);
    assert_eq!(line.edges_through(102), 2);
}

#[test]
fn waveform_next_edge_is_strictly_later() {
    let line = line(Level::High, &[100, 101, 103]);
    assert_eq!(line.next_edge_after(0), Some(100));
    assert_eq!(line.next_edge_after(100), Some(101));
    assert_eq!(line.next_edge_after(101), Some(103));
    assert_eq!(line.next_edge_after(102), Some(103));
    assert_eq!(line.next_edge_after(103), None);
}

#[test]
fn debouncer_walks_through_a_round() {
    let mut debouncer = Debouncer::new(20);
    assert_eq!(debouncer.window_ms(), 20);
    assert_eq!(debouncer.last_confirmed(), None);
    assert_eq!(debouncer.pending(), Wait::Sample);
    assert_eq!(debouncer.advance(Signal::Level(Level::High)), None);
    assert_eq!(debouncer.pending(), Wait::Edge);
    assert_eq!(debouncer.advance(Signal::Edge), None);
    assert_eq!(debouncer.pending(), Wait::Window { ms: 20 });
    assert_eq!(debouncer.advance(Signal::Elapsed), None);
    assert_eq!(debouncer.pending(), Wait::Sample);
    assert_eq!(debouncer.advance(Signal::Level(Level::Low)), Some(Level::Low));
    assert_eq!(debouncer.last_confirmed(), Some(Level::Low));
    assert_eq!(debouncer.pending(), Wait::Sample);
}

#[test]
fn debouncer_takes_a_bounce_for_nothing() {
    let mut debouncer = Debouncer::new(10);
    debouncer.advance(Signal::Level(Level::High));
    debouncer.advance(Signal::Edge);
    debouncer.advance(Signal::Elapsed);
    assert_eq!(debouncer.advance(Signal::Level(Level::High)), None);
    assert_eq!(debouncer.last_confirmed(), None);
    assert_eq!(debouncer.pending(), Wait::Sample);
    assert_eq!(debouncer.advance(Signal::Level(Level::High)), None);
    assert_eq!(debouncer.pending(), Wait::Edge);
}

#[test]
fn debouncer_ignores_what_it_did_not_ask_for() {
    let mut debouncer = Debouncer::new(10);
    assert_eq!(debouncer.advance(Signal::Edge), None);
    assert_eq!(debouncer.advance(Signal::Elapsed), None);
    assert_eq!(debouncer.pending(), Wait::Sample);
    debouncer.advance(Signal::Level(Level::Low));
    assert_eq!(debouncer.advance(Signal::Level(Level::High)), None);
    assert_eq!(debouncer.advance(Signal::Elapsed), None);
    assert_eq!(debouncer.pending(), Wait::Edge);
    debouncer.advance(Signal::Edge);
    assert_eq!(debouncer.advance(Signal::Edge), None);
    assert_eq!(debouncer.advance(Signal::Level(Level::High)), None);
    assert_eq!(debouncer.pending(), Wait::Window { ms: 10 });
    debouncer.advance(Signal::Elapsed);
    assert_eq!(debouncer.advance(Signal::Edge), None);
    assert_eq!(debouncer.advance(Signal::Elapsed), None);
    assert_eq!(debouncer.pending(), Wait::Sample);
    assert_eq!(debouncer.advance(Signal::Level(Level::High)), Some(Level::High));
}

#[test]
fn debouncer_keeps_the_last_confirmed_level() {
    let mut debouncer = Debouncer::new(10);
    debouncer.advance(Signal::Level(Level::High));
    debouncer.advance(Signal::Edge);
    debouncer.advance(Signal::Elapsed);
    assert_eq!(debouncer.advance(Signal::Level(Level::Low)), Some(Level::Low));
    debouncer.advance(Signal::Level(Level::Low));
    debouncer.advance(Signal::Edge);
    debouncer.advance(Signal::Elapsed);
    assert_eq!(debouncer.advance(Signal::Level(Level::Low)), None);
    assert_eq!(debouncer.last_confirmed(), Some(Level::Low));
    assert_eq!(debouncer.window_ms(), 10);
}

#[test]
fn bounce_then_settle_low_is_one_press() {
    let line = line(Level::High, &[100, 101, 103, 153]);
    assert_eq!(line.level_at(103), Level::Low);
    assert_eq!(line.level_at(152), Level::Low);
    assert_eq!(debounce(&line, 20, 0), Some(Confirmed { level: Level::Low, at: 120 }));
    assert_eq!(
        confirmed_transitions(&line, 20, 0),
        vec![
            Confirmed { level: Level::Low, at: 120 },
            Confirmed { level: Level::High, at: 173 },
        ]
    );
}

#[test]
fn settled_level_is_reported_exactly_once() {
    let line = line(Level::High, &[100, 101, 103]);
    assert_eq!(confirmed_transitions(&line, 20, 0), vec![Confirmed { level: Level::Low, at: 120 }]);
    assert_eq!(debounce(&line, 20, 120), None);
}

#[test]
fn many_bounces_within_the_window_change_nothing() {
    let line = line(Level::Low, &[10, 11, 12, 13, 14, 15, 16, 17, 18, 19, 20, 21, 22, 23, 30]);
    assert_eq!(line.resting_level(), Level::High);
    assert_eq!(confirmed_transitions(&line, 20, 0), vec![Confirmed { level: Level::High, at: 30 }]);
}

#[test]
fn excursion_within_the_window_is_not_reported() {
    let line = line(Level::High, &[100, 110]);
    assert_eq!(debounce(&line, 20, 0), None);
    assert_eq!(confirmed_transitions(&line, 20, 0), vec![]);
}

#[test]
fn excursion_is_skipped_and_the_next_press_found() {
    let line = line(Level::High, &[100, 110, 300]);
    assert_eq!(debounce(&line, 20, 0), Some(Confirmed { level: Level::Low, at: 320 }));
    assert_eq!(debounce(&line, 20, 120), Some(Confirmed { level: Level::Low, at: 320 }));
}

#[test]
fn bounce_that_outlasts_the_window_is_caught_in_the_next_round() {
    let line = line(Level::High, &[100, 119, 125]);
    assert_eq!(line.level_at(120), Level::High);
    assert_eq!(debounce(&line, 20, 0), Some(Confirmed { level: Level::Low, at: 145 }));
}

#[test]
fn edge_at_the_sample_instant_counts() {
    let line = line(Level::High, &[100, 105, 120]);
    assert_eq!(debounce(&line, 20, 0), Some(Confirmed { level: Level::Low, at: 120 }));
}

#[test]
fn steady_line_never_reports() {
    let line = Waveform::new(Level::High);
    assert_eq!(debounce(&line, 20, 0), None);
    assert_eq!(confirmed_transitions(&line, 20, 7), vec![]);
}

#[test]
fn call_after_the_last_edge_never_reports() {
    let line = line(Level::High, &[100]);
    assert_eq!(debounce(&line, 20, 100), None);
    assert_eq!(debounce(&line, 20, 99), Some(Confirmed { level: Level::Low, at: 120 }));
}

#[test]
fn press_and_release_are_both_confirmed() {
    let line = line(Level::High, &[100, 900]);
    assert_eq!(
        confirmed_transitions(&line, 10, 0),
        vec![
            Confirmed { level: Level::Low, at: 110 },
            Confirmed { level: Level::High, at: 910 },
        ]
    );
}

#[test]
fn zero_window_reports_at_the_edge() {
    let line = line(Level::Low, &[5]);
    assert_eq!(debounce(&line, 0, 0), Some(Confirmed { level: Level::High, at: 5 }));
}

#[test]
fn window_reaches_the_end_of_the_clock() {
    let line = line(Level::Low, &[u64::MAX - 20]);
    assert_eq!(debounce(&line, 20, 0), Some(Confirmed { level: Level::High, at: u64::MAX }));
}
