use jack_fourier::lifecycle::{running, step, Action, Event, Phase};

const EVENTS: [Event; 4] = [Event::Activated, Event::Interrupt, Event::UiShutdown, Event::LoopsQuiet];

#[test]
fn the_way_from_start_to_exit() {
    assert_eq!(step(Phase::Starting, Event::Activated), (Phase::Running, Action::Nothing));
    assert_eq!(step(Phase::Running, Event::Interrupt), (Phase::ShuttingDown, Action::LowerFlag));
    assert_eq!(step(Phase::Running, Event::UiShutdown), (Phase::ShuttingDown, Action::LowerFlag));
    assert_eq!(step(Phase::ShuttingDown, Event::LoopsQuiet), (Phase::Stopped, Action::CloseAudio));
}

#[test]
fn other_events_change_nothing() {
    assert_eq!(step(Phase::Starting, Event::Interrupt), (Phase::Starting, Action::Nothing));
    assert_eq!(step(Phase::Starting, Event::LoopsQuiet), (Phase::Starting, Action::Nothing));
    assert_eq!(step(Phase::Running, Event::Activated), (Phase::Running, Action::Nothing));
    assert_eq!(step(Phase::Running, Event::LoopsQuiet), (Phase::Running, Action::Nothing));
    assert_eq!(step(Phase::ShuttingDown, Event::Interrupt), (Phase::ShuttingDown, Action::Nothing));
    assert_eq!(step(Phase::ShuttingDown, Event::UiShutdown), (Phase::ShuttingDown, Action::Nothing));
    for e in EVENTS {
        assert_eq!(step(Phase::Stopped, e), (Phase::Stopped, Action::Nothing));
    }
}

#[test]
fn flag_is_up_until_shutdown_begins() {
    assert!(running(Phase::Starting));
    assert!(running(Phase::Running));
    assert!(!running(Phase::ShuttingDown));
    assert!(!running(Phase::Stopped));
}

#[test]
fn audio_is_closed_once_and_after_the_flag_went_down() {
    let mut code: u32 = 0;
    while code < 4u32.pow(7) {
        let mut phase = Phase::Starting;
        let mut lowered = 0;
        let mut closed = 0;
        let mut c = code;
        for _ in 0..7 {
            let (then, action) = step(phase, EVENTS[(c % 4) as usize]);
            c /= 4;
            match action {
                Action::LowerFlag => {
                    assert!(running(phase));
                    lowered += 1;
                }
                Action::CloseAudio => {
                    assert_eq!(lowered, 1);
                    assert!(!running(phase));
                    closed += 1;
                }
                Action::Nothing => {}
            }
            phase = then;
        }
        assert!(lowered <= 1);
        assert!(closed <= 1);
        assert_eq!(closed == 1, phase == Phase::Stopped);
        code += 1;
    }
}

#[test]
fn interrupt_and_ui_shutdown_lower_the_flag_only_once() {
    let (p, a) = step(Phase::Running, Event::Interrupt);
    assert_eq!(a, Action::LowerFlag);
    let (p, a) = step(p, Event::UiShutdown);
    assert_eq!((p, a), (Phase::ShuttingDown, Action::Nothing));
}
