//! Debounced button events for a small panel of push buttons.
//!
//! A raw input line is filtered by a [`debouncer::Debouncer`], each press is
//! timed by a [`classifier::PressClassifier`], and the result is turned into
//! actuator commands by the policies in [`dispatcher`]. Every component is a
//! state machine that never waits by itself: the caller performs the wait
//! that a component asks for and reports back what happened.

pub mod level;
pub mod channel;
pub mod waveform;
pub mod debouncer;
pub mod replay;
pub mod classifier;
pub mod task;
pub mod watch;
pub mod actuator;
pub mod dispatcher;
pub mod panel;
