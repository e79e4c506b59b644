use ascii_racer::input::{
    axis, control_of, decode_web_input, hold_active, Control, Inputs, KeyCode, KeyEvent,
    KeyEventKind,
};

fn key(code: KeyCode, kind: KeyEventKind) -> KeyEvent {
    KeyEvent { code, kind }
}

#[test]
fn pressing_and_releasing_drives_the_slots() {
    let mut inputs = Inputs::default();
    assert_eq!(inputs.throttle(), 0);
    inputs.handle(key(KeyCode::Char('w'), KeyEventKind::Press));
    assert!(inputs.forward.is_some());
    assert!(Inputs::held(inputs.forward));
    assert_eq!(inputs.throttle(), 1);
    inputs.handle(key(KeyCode::Down, KeyEventKind::Repeat));
    assert_eq!(inputs.throttle(), 0);
    inputs.handle(key(KeyCode::Char('W'), KeyEventKind::Release));
    assert!(inputs.forward.is_none());
    assert_eq!(inputs.throttle(), -1);
    inputs.handle(key(KeyCode::Left, KeyEventKind::Press));
    assert_eq!(inputs.steer(), -1);
    inputs.handle(key(KeyCode::Char('D'), KeyEventKind::Press));
    assert_eq!(inputs.steer(), 0);
    inputs.handle(key(KeyCode::Char(' '), KeyEventKind::Press));
    assert!(Inputs::held(inputs.handbrake));
    assert!(!inputs.quit && !inputs.reset);
}

#[test]
fn quit_and_reset_need_a_press() {
    let mut inputs = Inputs::new();
    inputs.handle(key(KeyCode::Char('Q'), KeyEventKind::Release));
    inputs.handle(key(KeyCode::Char('r'), KeyEventKind::Repeat));
    assert!(!inputs.quit && !inputs.reset);
    inputs.handle(key(KeyCode::Char('R'), KeyEventKind::Press));
    assert!(inputs.reset && !inputs.quit);
    inputs.handle(key(KeyCode::Esc, KeyEventKind::Press));
    assert!(inputs.quit);
}

#[test]
fn keys_map_to_controls_in_either_case() {
    assert_eq!(control_of(KeyCode::Up), Some(Control::Forward));
    assert_eq!(control_of(KeyCode::Char('S')), Some(Control::Back));
    assert_eq!(control_of(KeyCode::Char('a')), Some(Control::Left));
    assert_eq!(control_of(KeyCode::Right), Some(Control::Right));
    assert_eq!(control_of(KeyCode::Char(' ')), Some(Control::Handbrake));
    assert_eq!(control_of(KeyCode::Char('x')), None);
    assert_eq!(control_of(KeyCode::Esc), None);
}

#[test]
fn hold_expires_after_a_quarter_second() {
    assert!(hold_active(0));
    assert!(hold_active(249));
    assert!(!hold_active(250));
    assert!(!Inputs::held(None));
    assert_eq!(axis(true, false), 1);
    assert_eq!(axis(true, true), 0);
    assert_eq!(axis(false, true), -1);
}

#[test]
fn web_input_word_decodes_each_bit() {
    let c = decode_web_input(1 | 8 | 16);
    assert_eq!((c.throttle, c.steer, c.handbrake), (1, 1, true));
    let c = decode_web_input(2 | 4);
    assert_eq!((c.throttle, c.steer, c.handbrake), (-1, -1, false));
    let c = decode_web_input(1 | 2 | 4 | 8);
    assert_eq!((c.throttle, c.steer, c.handbrake), (0, 0, false));
    let c = decode_web_input(0);
    assert_eq!((c.throttle, c.steer, c.handbrake), (0, 0, false));
}

#[test]
fn upper_case_q_quits_like_lower_case() {
    let mut upper = Inputs::new();
    upper.handle(key(KeyCode::Char('Q'), KeyEventKind::Press));
    let mut lower = Inputs::new();
    lower.handle(key(KeyCode::Char('q'), KeyEventKind::Press));
    assert!(upper.quit && lower.quit);
    assert!(!upper.reset && upper.forward.is_none());
}
