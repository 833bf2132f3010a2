//! Timing of one press: the cascade of deadlines that sorts a press into
//! short, medium and long.
//!
//! A [`PressClassifier`] is fed the confirmed transitions of one button and
//! the expiries of the deadline it announces. While a press lasts, exactly
//! one wait for the release is outstanding; a deadline only bounds how long
//! the caller listens to that wait before it reports back, and never
//! replaces it.

use vstd::prelude::*;

verus! {

/// A press that is released before this many milliseconds is short.
pub const SHORT_THRESHOLD_MS: u64 = 1000;

/// A press that is held for this many milliseconds is long.
pub const LONG_THRESHOLD_MS: u64 = 5000;

/// The duration bucket of a completed press.
#[derive(Clone, Copy, Debug, PartialEq, Eq, Structural)]
pub enum Category {
    /// Released before the short threshold.
    ShortPress,
    /// Released at or after the short threshold and before the long one.
    MediumPress,
    /// Held until the long threshold or beyond.
    LongHeld,
}

/// What the classifier says of a press while it watches it.
#[derive(Clone, Copy, Debug, PartialEq, Eq, Structural)]
pub enum Marker {
    /// The release came before the short threshold.
    ShortPress,
    /// The short threshold passed with the button still down.
    Held,
    /// The release came after the short threshold and before the long one.
    MediumPress,
    /// The long threshold passed with the button still down.
    LongHeld,
    /// The release came after the long threshold.
    Released,
}

/// A marker with the time since the press began, in milliseconds.
#[derive(Clone, Copy, Debug, PartialEq, Eq, Structural)]
pub struct Emission {
    pub marker: Marker,
    pub elapsed_ms: u64,
}

/// The outcome of one press and release.
#[derive(Clone, Copy, Debug, PartialEq, Eq, Structural)]
pub struct ButtonEvent {
    pub category: Category,
    pub duration_ms: u64,
}

/// Where the classifier stands within a press.
#[derive(Clone, Copy, Debug, PartialEq, Eq, Structural)]
pub enum Stage {
    /// No press is under way.
    Idle,
    /// Pressed at `since`; the short threshold has not passed.
    Pressed { since: u64 },
    /// Pressed at `since`; the short threshold has passed, the long one not.
    Held { since: u64 },
    /// Pressed at `since`; both thresholds have passed.
    LongHeld { since: u64 },
}

/// What reaches a classifier: a confirmed transition of the line, read at
/// instant `now`, or the expiry of the announced deadline.
#[derive(Clone, Copy, Debug, PartialEq, Eq, Structural)]
pub enum Input {
    Transition { now: u64 },
    Deadline,
}

/// The bucket whose range holds a press of `duration` milliseconds.
pub open spec fn category_of(duration: int) -> Category {
    if duration < SHORT_THRESHOLD_MS {
        Category::ShortPress
    } else if duration < LONG_THRESHOLD_MS {
        Category::MediumPress
    } else {
        Category::LongHeld
    }
}

/// The range of a bucket: its lower bound belongs to it, its upper bound
/// to the next.
pub open spec fn in_range(category: Category, duration: int) -> bool {
    match category {
        Category::ShortPress => 0 <= duration < SHORT_THRESHOLD_MS,
        Category::MediumPress => SHORT_THRESHOLD_MS <= duration < LONG_THRESHOLD_MS,
        Category::LongHeld => LONG_THRESHOLD_MS <= duration,
    }
}

/// The place of a bucket in the order from short to long.
pub open spec fn rank(category: Category) -> nat {
    match category {
        Category::ShortPress => 0,
        Category::MediumPress => 1,
        Category::LongHeld => 2,
    }
}

/// The time from `since` to `now` on a clock that never runs backwards; a
/// reading before `since` counts as no time at all.
pub open spec fn elapsed(since: u64, now: u64) -> u64 {
    if now >= since {
        (now - since) as u64
    } else {
        0
    }
}

/// The deadline that bounds the wait for the release in `stage`: the
/// instant of the press plus the next threshold, where the clock reaches
/// that far.
pub open spec fn deadline_of(stage: Stage) -> Option<u64> {
    match stage {
        Stage::Pressed { since } => if since + SHORT_THRESHOLD_MS <= u64::MAX {
            Some((since + SHORT_THRESHOLD_MS) as u64)
        } else {
            None
        },
        Stage::Held { since } => if since + LONG_THRESHOLD_MS <= u64::MAX {
            Some((since + LONG_THRESHOLD_MS) as u64)
        } else {
            None
        },
        _ => None,
    }
}

/// The stage that follows `stage` on `input`. A transition begins a press
/// when none is under way and ends the press otherwise. A deadline moves a
/// press one step up the cascade; where none is announced it changes
/// nothing.
pub open spec fn next_stage(stage: Stage, input: Input) -> Stage {
    match (stage, input) {
        (Stage::Idle, Input::Transition { now }) => Stage::Pressed { since: now },
        (_, Input::Transition { .. }) => Stage::Idle,
        (Stage::Pressed { since }, Input::Deadline) => if deadline_of(stage) is Some {
            Stage::Held { since }
        } else {
            stage
        },
        (Stage::Held { since }, Input::Deadline) => if deadline_of(stage) is Some {
            Stage::LongHeld { since }
        } else {
            stage
        },
        (_, Input::Deadline) => stage,
    }
}

/// What the classifier emits when `input` reaches it in `stage`.
pub open spec fn emitted(stage: Stage, input: Input) -> Option<Emission> {
    match (stage, input) {
        (Stage::Idle, _) => None,
        (Stage::Pressed { since }, Input::Transition { now }) => Some(
            Emission { marker: Marker::ShortPress, elapsed_ms: elapsed(since, now) },
        ),
        (Stage::Held { since }, Input::Transition { now }) => Some(
            Emission { marker: Marker::MediumPress, elapsed_ms: elapsed(since, now) },
        ),
        (Stage::LongHeld { since }, Input::Transition { now }) => Some(
            Emission { marker: Marker::Released, elapsed_ms: elapsed(since, now) },
        ),
        (Stage::Pressed { .. }, Input::Deadline) => if deadline_of(stage) is Some {
            Some(Emission { marker: Marker::Held, elapsed_ms: SHORT_THRESHOLD_MS })
        } else {
            None
        },
        (Stage::Held { .. }, Input::Deadline) => if deadline_of(stage) is Some {
            Some(Emission { marker: Marker::LongHeld, elapsed_ms: LONG_THRESHOLD_MS })
        } else {
            None
        },
        (Stage::LongHeld { .. }, Input::Deadline) => None,
    }
}

/// The event that an emission stands for, where it ends a press.
pub open spec fn event_of(emission: Emission) -> Option<ButtonEvent> {
    match emission.marker {
        Marker::ShortPress => Some(
            ButtonEvent { category: Category::ShortPress, duration_ms: emission.elapsed_ms },
        ),
        Marker::MediumPress => Some(
            ButtonEvent { category: Category::MediumPress, duration_ms: emission.elapsed_ms },
        ),
        Marker::Released => Some(
            ButtonEvent { category: Category::LongHeld, duration_ms: emission.elapsed_ms },
        ),
        Marker::Held => None,
        Marker::LongHeld => None,
    }
}

/// Everything the classifier emits for a press of `duration` milliseconds
/// whose deadlines expire on time, in order.
pub open spec fn emissions_for(duration: u64) -> Seq<Emission> {
    match category_of(duration as int) {
        Category::ShortPress => seq![Emission { marker: Marker::ShortPress, elapsed_ms: duration }],
        Category::MediumPress => seq![
            Emission { marker: Marker::Held, elapsed_ms: SHORT_THRESHOLD_MS },
            Emission { marker: Marker::MediumPress, elapsed_ms: duration },
        ],
        Category::LongHeld => seq![
            Emission { marker: Marker::Held, elapsed_ms: SHORT_THRESHOLD_MS },
            Emission { marker: Marker::LongHeld, elapsed_ms: LONG_THRESHOLD_MS },
            Emission { marker: Marker::Released, elapsed_ms: duration },
        ],
    }
}

/// Sorts a duration into its bucket.
pub fn classify(duration_ms: u64) -> (category: Category)
    ensures
        category == category_of(duration_ms as int),
{
    if duration_ms < SHORT_THRESHOLD_MS {
        Category::ShortPress
    } else if duration_ms < LONG_THRESHOLD_MS {
        Category::MediumPress
    } else {
        Category::LongHeld
    }
}

impl Emission {
    /// The event that this emission stands for, where it ends a press.
    pub fn event(&self) -> (event: Option<ButtonEvent>)
        ensures
            event == event_of(*self),
    {
        match self.marker {
            Marker::ShortPress => Some(
                ButtonEvent { category: Category::ShortPress, duration_ms: self.elapsed_ms },
            ),
            Marker::MediumPress => Some(
                ButtonEvent { category: Category::MediumPress, duration_ms: self.elapsed_ms },
            ),
            Marker::Released => Some(
                ButtonEvent { category: Category::LongHeld, duration_ms: self.elapsed_ms },
            ),
            Marker::Held => None,
            Marker::LongHeld => None,
        }
    }
}

/// The classifier of one button.
pub struct PressClassifier {
    stage: Stage,
}

impl PressClassifier {
    /// Where the classifier stands.
    pub closed spec fn stage(self) -> Stage {
        self.stage
    }

    /// A classifier with no press under way.
    pub fn new() -> (classifier: PressClassifier)
        ensures
            classifier.stage() == Stage::Idle,
    {
        PressClassifier { stage: Stage::Idle }
    }

    /// Where the classifier stands.
    pub fn current_stage(&self) -> (stage: Stage)
        ensures
            stage == self.stage(),
    {
        self.stage
    }

    /// Tells whether no press is under way, so that the next transition
    /// begins one.
    pub fn is_idle(&self) -> (idle: bool)
        ensures
            idle == (self.stage() is Idle),
    {
        match self.stage {
            Stage::Idle => true,
            _ => false,
        }
    }

    /// The instant up to which the caller listens to the wait for the
    /// release before it calls [`PressClassifier::on_deadline`]. Without a
    /// deadline the caller listens until the release comes.
    pub fn deadline(&self) -> (deadline: Option<u64>)
        ensures
            deadline == deadline_of(self.stage()),
    {
        match self.stage {
            Stage::Pressed { since } => since.checked_add(SHORT_THRESHOLD_MS),
            Stage::Held { since } => since.checked_add(LONG_THRESHOLD_MS),
            _ => None,
        }
    }

    /// Tells whether a deadline is announced that expires at or before
    /// instant `now`.
    pub fn deadline_due(&self, now: u64) -> (due: bool)
        ensures
            due == (deadline_of(self.stage()) matches Some(deadline) && deadline <= now),
    {
        match self.deadline() {
            Some(deadline) => deadline <= now,
            None => false,
        }
    }

    /// Takes a confirmed transition of the line, read at instant `now`.
    /// With no press under way it begins one and emits nothing; otherwise
    /// it is the release, and the marker of the finished press comes back.
    pub fn on_transition(&mut self, now: u64) -> (emission: Option<Emission>)
        ensures
            final(self).stage() == next_stage(old(self).stage(), Input::Transition { now }),
            emission == emitted(old(self).stage(), Input::Transition { now }),
    {
        match self.stage {
            Stage::Idle => {
                self.stage = Stage::Pressed { since: now };
                None
            },
            Stage::Pressed { since } => {
                self.stage = Stage::Idle;
                Some(Emission { marker: Marker::ShortPress, elapsed_ms: now.saturating_sub(since) })
            },
            Stage::Held { since } => {
                self.stage = Stage::Idle;
                Some(Emission { marker: Marker::MediumPress, elapsed_ms: now.saturating_sub(since) })
            },
            Stage::LongHeld { since } => {
                self.stage = Stage::Idle;
                Some(Emission { marker: Marker::Released, elapsed_ms: now.saturating_sub(since) })
            },
        }
    }

    /// Takes the expiry of the announced deadline: the release has not come
    /// in time. The wait for the release stays outstanding. Where no
    /// deadline is announced the call changes nothing and emits nothing.
    pub fn on_deadline(&mut self) -> (emission: Option<Emission>)
        ensures
            final(self).stage() == next_stage(old(self).stage(), Input::Deadline),
            emission == emitted(old(self).stage(), Input::Deadline),
    {
        match self.stage {
            Stage::Pressed { since } => {
                if since <= u64::MAX - SHORT_THRESHOLD_MS {
                    self.stage = Stage::Held { since };
                    Some(Emission { marker: Marker::Held, elapsed_ms: SHORT_THRESHOLD_MS })
                } else {
                    None
                }
            },
            Stage::Held { since } => {
                if since <= u64::MAX - LONG_THRESHOLD_MS {
                    self.stage = Stage::LongHeld { since };
                    Some(Emission { marker: Marker::LongHeld, elapsed_ms: LONG_THRESHOLD_MS })
                } else {
                    None
                }
            },
            _ => None,
        }
    }

    /// Takes either kind of input.
    pub fn feed(&mut self, input: Input) -> (emission: Option<Emission>)
        ensures
            final(self).stage() == next_stage(old(self).stage(), input),
            emission == emitted(old(self).stage(), input),
    {
        match input {
            Input::Transition { now } => self.on_transition(now),
            Input::Deadline => self.on_deadline(),
        }
    }
}

/// Plays one press through a classifier: the press at `pressed_at`, each
/// deadline that expires at or before the release, in order, and the
/// release at `released_at`. A deadline that expires at the very instant
/// of the release goes first. The result is everything the classifier
/// emitted, in order.
pub fn classify_press(pressed_at: u64, released_at: u64) -> (emissions: Vec<Emission>)
    ensures
        emissions@ == emissions_for(elapsed(pressed_at, released_at)),
{
    let mut classifier = PressClassifier::new();
    let mut emissions: Vec<Emission> = Vec::new();
    classifier.on_transition(pressed_at);
    let mut due = classifier.deadline_due(released_at);
    while due
        invariant
            due == (deadline_of(classifier.stage()) matches Some(deadline) && deadline
                <= released_at),
            match classifier.stage() {
                Stage::Idle => false,
                Stage::Pressed { since } => since == pressed_at && emissions@ == Seq::<
                    Emission,
                >::empty(),
                Stage::Held { since } => {
                    &&& since == pressed_at
                    &&& pressed_at + SHORT_THRESHOLD_MS <= released_at
                    &&& emissions@ == seq![
                        Emission { marker: Marker::Held, elapsed_ms: SHORT_THRESHOLD_MS },
                    ]
                },
                Stage::LongHeld { since } => {
                    &&& since == pressed_at
                    &&& pressed_at + LONG_THRESHOLD_MS <= released_at
                    &&& emissions@ == seq![
                        Emission { marker: Marker::Held, elapsed_ms: SHORT_THRESHOLD_MS },
                        Emission { marker: Marker::LongHeld, elapsed_ms: LONG_THRESHOLD_MS },
                    ]
                },
            },
        decreases
                match classifier.stage() {
                    Stage::Pressed { .. } => 2nat,
                    Stage::Held { .. } => 1nat,
                    _ => 0nat,
                },
    {
        if let Some(emission) = classifier.on_deadline() {
            emissions.push(emission);
        }
        due = classifier.deadline_due(released_at);
    }
    if let Some(emission) = classifier.on_transition(released_at) {
        emissions.push(emission);
    }
    assert(emissions@ =~= emissions_for(elapsed(pressed_at, released_at)));
    emissions
}

/// Classification: every duration lies in the range of exactly one bucket,
/// the one that `category_of` names.
pub proof fn lemma_bucket_is_unique(category: Category, duration: int)
    requires
        0 <= duration,
    ensures
        in_range(category, duration) <==> category == category_of(duration),
{
}

/// Classification is monotonic: a longer press never falls into an
/// earlier bucket.
pub proof fn lemma_category_is_monotonic(shorter: int, longer: int)
    requires
        shorter <= longer,
    ensures
        rank(category_of(shorter)) <= rank(category_of(longer)),
{
}

/// A press that is released `duration` milliseconds after it began ends
/// with the one emission that carries an event, and that event names the
/// bucket of `duration` and `duration` itself. The emissions before it are
/// the thresholds that passed, each at its own instant.
pub proof fn lemma_press_ends_in_its_bucket(duration: u64)
    ensures
        emissions_for(duration).len() == rank(category_of(duration as int)) + 1,
        event_of(emissions_for(duration).last()) == Some(
            ButtonEvent { category: category_of(duration as int), duration_ms: duration },
        ),
        forall|i: int|
            0 <= i < emissions_for(duration).len() - 1 ==> event_of(
                #[trigger] emissions_for(duration)[i],
            ) is None,
{
}

/// The stage that a classifier reaches from `stage` when `inputs` arrive
/// in order.
pub open spec fn stage_after(stage: Stage, inputs: Seq<Input>) -> Stage
    decreases inputs.len(),
{
    if inputs.len() == 0 {
        stage
    } else {
        next_stage(stage_after(stage, inputs.drop_last()), inputs.last())
    }
}

/// Everything a classifier emits from `stage` when `inputs` arrive in
/// order.
pub open spec fn emitted_after(stage: Stage, inputs: Seq<Input>) -> Seq<Emission>
    decreases inputs.len(),
{
    if inputs.len() == 0 {
        Seq::empty()
    } else {
        let earlier = emitted_after(stage, inputs.drop_last());
        match emitted(stage_after(stage, inputs.drop_last()), inputs.last()) {
            Some(emission) => earlier.push(emission),
            None => earlier,
        }
    }
}

/// The number of presses that a classifier accepts from `stage` while
/// `inputs` arrive: the transitions that find no press under way.
pub open spec fn presses_accepted(stage: Stage, inputs: Seq<Input>) -> nat
    decreases inputs.len(),
{
    if inputs.len() == 0 {
        0
    } else {
        presses_accepted(stage, inputs.drop_last()) + if inputs.last() is Transition
            && stage_after(stage, inputs.drop_last()) is Idle {
            1nat
        } else {
            0nat
        }
    }
}

/// The number of releases that a classifier observes from `stage` while
/// `inputs` arrive: the transitions that find a press under way.
pub open spec fn releases_observed(stage: Stage, inputs: Seq<Input>) -> nat
    decreases inputs.len(),
{
    if inputs.len() == 0 {
        0
    } else {
        releases_observed(stage, inputs.drop_last()) + if inputs.last() is Transition
            && !(stage_after(stage, inputs.drop_last()) is Idle) {
            1nat
        } else {
            0nat
        }
    }
}

/// Presses do not interleave. Whatever reaches a fresh classifier, and in
/// whatever order, it has accepted at most one press more than it has
/// observed releases, and exactly one more while a press is under way. A
/// press is accepted only with none under way, so none is accepted before
/// the release of the one before it has been observed.
pub proof fn lemma_presses_do_not_interleave(inputs: Seq<Input>)
    ensures
        stage_after(Stage::Idle, inputs) is Idle ==> presses_accepted(Stage::Idle, inputs)
            == releases_observed(Stage::Idle, inputs),
        !(stage_after(Stage::Idle, inputs) is Idle) ==> presses_accepted(Stage::Idle, inputs)
            == releases_observed(Stage::Idle, inputs) + 1,
    decreases inputs.len(),
{
    if inputs.len() > 0 {
        lemma_presses_do_not_interleave(inputs.drop_last());
    }
}

impl PressClassifier {
    /// Takes a run of inputs in order and returns everything emitted on
    /// the way.
    pub fn feed_all(&mut self, inputs: &Vec<Input>) -> (emissions: Vec<Emission>)
        ensures
            final(self).stage() == stage_after(old(self).stage(), inputs@),
            emissions@ == emitted_after(old(self).stage(), inputs@),
    {
        let mut emissions: Vec<Emission> = Vec::new();
        let mut i: usize = 0;
        while i < inputs.len()
            invariant
                i <= inputs.len(),
                self.stage() == stage_after(old(self).stage(), inputs@.take(i as int)),
                emissions@ == emitted_after(old(self).stage(), inputs@.take(i as int)),
            decreases inputs.len() - i,
        {
            proof {
                assert(inputs@.take(i + 1).drop_last() =~= inputs@.take(i as int));
            }
            if let Some(emission) = self.feed(inputs[i]) {
                emissions.push(emission);
            }
            i += 1;
        }
        proof {
            assert(inputs@.take(i as int) =~= inputs@);
        }
        emissions
    }
}

} // verus!
