use clip_mash::handy::{Command, InvalidMode, LoopState, Message, Mode, ModeUpdate, SlideSettings, Tick};
use std::time::Duration;

#[test]
fn mode_codes_round_trip() {
    for mode in [Mode::HAMP, Mode::HSSP, Mode::HDSP, Mode::MAINTENANCE, Mode::HBSP] {
        assert_eq!(Mode::try_from(mode.code()), Ok(mode));
    }
    assert_eq!(Mode::HDSP.code(), 2);
    assert_eq!(Mode::try_from(5), Err(InvalidMode { value: 5 }));
    assert_eq!(ModeUpdate::for_mode(Mode::HBSP).mode, 4);
    let s = SlideSettings::fixed_range(10, 80);
    assert_eq!((s.min, s.max, s.fixed), (10, 80, Some(true)));
}

#[test]
fn loop_pause_and_stop() {
    let mut state = LoopState::new();
    assert!(!state.paused);
    assert_eq!(state.handle_message(Message::TogglePause), Command::Halt);
    assert!(state.paused);
    assert_eq!(state.tick(true, 50, 40), Tick::Skip);
    assert_eq!(state.handle_message(Message::TogglePause), Command::Resume);
    assert!(!state.paused);
    assert_eq!(state.tick(true, 50, 40), Tick::SetVelocity);
    assert_eq!(state.tick(true, 40, 40), Tick::Keep);
    assert_eq!(state.tick(false, 50, 40), Tick::Finish);
    assert_eq!(state.handle_message(Message::Stop), Command::Shutdown);
    let status = state.status(Duration::from_millis(1500), 42);
    assert_eq!((status.elapsed, status.current_velocity, status.paused), (Duration::from_millis(1500), 42, false));
}
