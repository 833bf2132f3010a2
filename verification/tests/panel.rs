use button_panel::actuator::{actuator_step, Actuator, ActuatorAction, QUIESCENT_MS};
use button_panel::channel::{ActuatorCommand, CHANNEL_CAPACITY};
use button_panel::classifier::{Emission, Marker};
use button_panel::dispatcher::{
    dispatch_bucketed, dispatch_exclusive, exclusive_select, Button, Directive, Lamp, LampStep,
};
use button_panel::level::Level;
use button_panel::panel::{Lights, Panel};

const BUTTONS: [Button; 4] = [Button::P, Button::N, Button::R, Button::D];

fn only(button: Button) -> Lights {
    let level = |b: Button| if b == button { Level::High } else { Level::Low };
    Lights { p: level(Button::P), n: level(Button::N), r: level(Button::R), d: level(Button::D) }
}

fn dark() -> Lights {
    Lights { p: Level::Low, n: Level::Low, r: Level::Low, d: Level::Low }
}

#[test]
fn actuator_step_follows_the_command() {
    assert_eq!(QUIESCENT_MS, 250);
    assert_eq!(actuator_step(Some(ActuatorCommand::On)), ActuatorAction::Drive(Level::High));
    assert_eq!(actuator_step(Some(ActuatorCommand::Off)), ActuatorAction::Drive(Level::Low));
    assert_eq!(actuator_step(None), ActuatorAction::Rest { ms: 250 });
}

#[test]
fn actuator_starts_low_and_empty() {
    let mut actuator = Actuator::new();
    assert_eq!(actuator.level(), Level::Low);
    assert_eq!(actuator.backlog(), 0);
    assert_eq!(actuator.poll(), ActuatorAction::Rest { ms: 250 });
    assert_eq!(actuator.level(), Level::Low);
    assert_eq!(actuator.drain(), 0);
}

#[test]
fn actuator_takes_commands_in_the_order_sent() {
    let mut actuator = Actuator::new();
    assert!(actuator.post(ActuatorCommand::On));
    assert!(actuator.post(ActuatorCommand::Off));
    assert!(actuator.post(ActuatorCommand::On));
    assert_eq!(actuator.backlog(), 3);
    assert_eq!(actuator.level(), Level::Low);
    assert_eq!(actuator.poll(), ActuatorAction::Drive(Level::High));
    assert_eq!(actuator.level(), Level::High);
    assert_eq!(actuator.backlog(), 2);
    assert_eq!(actuator.poll(), ActuatorAction::Drive(Level::Low));
    assert_eq!(actuator.level(), Level::Low);
    assert_eq!(actuator.poll(), ActuatorAction::Drive(Level::High));
    assert_eq!(actuator.level(), Level::High);
    assert_eq!(actuator.backlog(), 0);
    assert_eq!(actuator.poll(), ActuatorAction::Rest { ms: 250 });
    assert_eq!(actuator.level(), Level::High);
}

#[test]
fn full_channel_pushes_back() {
    let mut actuator = Actuator::new();
    assert_eq!(CHANNEL_CAPACITY, 64);
    for _ in 0..64 {
        assert!(actuator.post(ActuatorCommand::On));
    }
    assert_eq!(actuator.backlog(), 64);
    assert!(!actuator.post(ActuatorCommand::Off));
    assert_eq!(actuator.backlog(), 64);
    assert_eq!(actuator.poll(), ActuatorAction::Drive(Level::High));
    assert!(actuator.post(ActuatorCommand::Off));
    assert!(!actuator.post(ActuatorCommand::Off));
    assert_eq!(actuator.drain(), 64);
    assert_eq!(actuator.level(), Level::Low);
    assert_eq!(actuator.backlog(), 0);
}

#[test]
fn drain_leaves_the_last_command_standing() {
    let mut actuator = Actuator::new();
    actuator.post(ActuatorCommand::Off);
    actuator.post(ActuatorCommand::On);
    assert_eq!(actuator.drain(), 2);
    assert_eq!(actuator.level(), Level::High);
    actuator.post(ActuatorCommand::On);
    actuator.post(ActuatorCommand::Off);
    assert_eq!(actuator.drain(), 2);
    assert_eq!(actuator.level(), Level::Low);
}

#[test]
fn exclusive_select_turns_one_on_and_three_off() {
    assert_eq!(
        exclusive_select(Button::N),
        [
            Directive { target: Button::P, command: ActuatorCommand::Off },
            Directive { target: Button::N, command: ActuatorCommand::On },
            Directive { target: Button::R, command: ActuatorCommand::Off },
            Directive { target: Button::D, command: ActuatorCommand::Off },
        ]
    );
    for pressed in BUTTONS {
        let directives = exclusive_select(pressed);
        assert_eq!(directives.len(), 4);
        for (directive, target) in directives.iter().zip(BUTTONS) {
            assert_eq!(directive.target, target);
            assert_eq!(directive.command == ActuatorCommand::On, target == pressed);
        }
    }
}

#[test]
fn exclusive_policy_acts_on_the_end_of_a_press_whatever_its_category() {
    for marker in [Marker::ShortPress, Marker::MediumPress, Marker::Released] {
        let emission = Emission { marker, elapsed_ms: 1 };
        assert_eq!(dispatch_exclusive(Button::D, emission), Some(exclusive_select(Button::D)));
    }
    for marker in [Marker::Held, Marker::LongHeld] {
        let emission = Emission { marker, elapsed_ms: 1 };
        assert_eq!(dispatch_exclusive(Button::D, emission), None);
    }
}

#[test]
fn bucketed_policy_pulses_one_lamp_for_each_marker() {
    let pulse = |lamp: Lamp| {
        Some([
            LampStep::Send { lamp, command: ActuatorCommand::On },
            LampStep::Hold { ms: 300 },
            LampStep::Send { lamp, command: ActuatorCommand::Off },
        ])
    };
    let emission = |marker: Marker| Emission { marker, elapsed_ms: 0 };
    assert_eq!(dispatch_bucketed(emission(Marker::ShortPress), 300), pulse(Lamp::Blue));
    assert_eq!(dispatch_bucketed(emission(Marker::Held), 300), pulse(Lamp::Green));
    assert_eq!(dispatch_bucketed(emission(Marker::MediumPress), 300), pulse(Lamp::Orange));
    assert_eq!(dispatch_bucketed(emission(Marker::LongHeld), 300), pulse(Lamp::Red));
    assert_eq!(dispatch_bucketed(emission(Marker::Released), 300), None);
}

#[test]
fn panel_starts_dark() {
    let mut panel = Panel::new();
    assert_eq!(panel.selection(), None);
    assert!(panel.is_quiescent());
    assert!(panel.can_press());
    assert_eq!(panel.snapshot(), dark());
    panel.settle();
    assert_eq!(panel.snapshot(), dark());
    for button in BUTTONS {
        assert_eq!(panel.backlog(button), 0);
        assert_eq!(panel.service(button), ActuatorAction::Rest { ms: 250 });
        assert_eq!(panel.snapshot().level(button), Level::Low);
    }
}

#[test]
fn press_p_then_n_leaves_only_n_on() {
    let mut panel = Panel::new();
    assert!(panel.press(Button::P));
    panel.settle();
    assert_eq!(panel.snapshot(), only(Button::P));
    assert!(panel.press(Button::N));
    assert_eq!(panel.snapshot(), only(Button::P));
    panel.settle();
    assert_eq!(panel.selection(), Some(Button::N));
    assert_eq!(
        panel.snapshot(),
        Lights { p: Level::Low, n: Level::High, r: Level::Low, d: Level::Low }
    );
}

#[test]
fn last_press_wins_whatever_came_before() {
    let presses = [
        Button::R,
        Button::R,
        Button::D,
        Button::P,
        Button::N,
        Button::P,
        Button::D,
        Button::R,
        Button::N,
    ];
    for count in 1..=presses.len() {
        let mut panel = Panel::new();
        for &button in &presses[..count] {
            assert!(panel.press(button));
        }
        assert!(!panel.is_quiescent());
        assert_eq!(panel.backlog(Button::P), count);
        panel.settle();
        assert!(panel.is_quiescent());
        let last = presses[count - 1];
        assert_eq!(panel.selection(), Some(last));
        assert_eq!(panel.snapshot(), only(last));
        let lit = BUTTONS.iter().filter(|&&b| panel.snapshot().level(b) == Level::High).count();
        assert_eq!(lit, 1);
    }
}

#[test]
fn actuators_run_at_their_own_pace() {
    let mut panel = Panel::new();
    assert!(panel.press(Button::P));
    assert!(panel.press(Button::N));
    assert_eq!(panel.service(Button::N), ActuatorAction::Drive(Level::Low));
    assert_eq!(panel.service(Button::N), ActuatorAction::Drive(Level::High));
    assert_eq!(panel.service(Button::N), ActuatorAction::Rest { ms: 250 });
    assert_eq!(panel.service(Button::P), ActuatorAction::Drive(Level::High));
    assert_eq!(
        panel.snapshot(),
        Lights { p: Level::High, n: Level::High, r: Level::Low, d: Level::Low }
    );
    assert_eq!(panel.backlog(Button::P), 1);
    assert_eq!(panel.backlog(Button::N), 0);
    assert_eq!(panel.backlog(Button::R), 2);
    assert_eq!(panel.service(Button::P), ActuatorAction::Drive(Level::Low));
    assert_eq!(panel.snapshot(), only(Button::N));
    panel.settle();
    assert_eq!(panel.snapshot(), only(Button::N));
}

#[test]
fn deliver_reaches_only_its_target() {
    let mut panel = Panel::new();
    assert!(panel.deliver(Directive { target: Button::R, command: ActuatorCommand::On }));
    assert_eq!(panel.backlog(Button::P), 0);
    assert_eq!(panel.backlog(Button::N), 0);
    assert_eq!(panel.backlog(Button::R), 1);
    assert_eq!(panel.backlog(Button::D), 0);
    assert_eq!(panel.service(Button::R), ActuatorAction::Drive(Level::High));
    assert_eq!(panel.snapshot(), only(Button::R));
}

#[test]
fn press_is_refused_while_a_channel_is_full() {
    let mut panel = Panel::new();
    for _ in 0..64 {
        assert!(panel.press(Button::D));
    }
    assert!(!panel.can_press());
    assert!(!panel.press(Button::P));
    assert_eq!(panel.selection(), Some(Button::D));
    for button in BUTTONS {
        assert_eq!(panel.backlog(button), 64);
    }
    panel.service(Button::P);
    panel.service(Button::N);
    panel.service(Button::R);
    assert!(!panel.press(Button::P));
    assert_eq!(panel.backlog(Button::P), 63);
    panel.service(Button::D);
    assert!(panel.press(Button::P));
    assert_eq!(panel.selection(), Some(Button::P));
    panel.settle();
    assert_eq!(panel.snapshot(), only(Button::P));
}

#[test]
fn run_of_presses_outlasts_the_channels() {
    let mut panel = Panel::new();
    let mut presses = Vec::new();
    for i in 0..200 {
        presses.push(BUTTONS[(i * 7 + i / 3) % 4]);
    }
    presses.push(Button::R);
    panel.press_all(&presses);
    assert_eq!(panel.selection(), Some(Button::R));
    panel.settle();
    assert_eq!(panel.snapshot(), only(Button::R));
    panel.press_all(&Vec::new());
    assert_eq!(panel.selection(), Some(Button::R));
    assert!(panel.is_quiescent());
}
