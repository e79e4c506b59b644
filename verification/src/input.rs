//! Keyboard and touch input: which controls are held, and the throttle,
//! steering and handbrake they ask for.
use vstd::prelude::*;
use std::time::{Duration, Instant};

verus! {

#[verifier::external_type_specification]
#[verifier::external_body]
pub struct ExInstant(Instant);

/// `Instant::now`: a reading of the monotonic clock; nothing about its
/// value is stated, since it depends on when the call is made.
#[verifier::external_body]
fn now() -> Instant {
    Instant::now()
}

/// `Instant::elapsed`: the time since `t`; it depends on the clock, so its
/// value is left unsaid.
#[verifier::external_body]
fn elapsed(t: &Instant) -> Duration {
    t.elapsed()
}

/// `Duration::as_millis`: the whole milliseconds in a duration. The
/// duration is opaque here, so nothing is stated of the result.
pub assume_specification[ Duration::as_millis ](d: &Duration) -> u128;

/// How long a key counts as held after its last press or repeat, in
/// milliseconds: terminals report no releases, only repeats.
pub const INPUT_HOLD_MILLIS: u128 = 250;

/// A key, as far as the game tells keys apart.
#[derive(Clone, Copy, Debug, PartialEq, Eq, Structural)]
pub enum KeyCode {
    Char(char),
    Up,
    Down,
    Left,
    Right,
    Esc,
    Other,
}

#[derive(Clone, Copy, Debug, PartialEq, Eq, Structural)]
pub enum KeyEventKind {
    Press,
    Repeat,
    Release,
}

/// A key going down, repeating, or coming up.
#[derive(Clone, Copy, Debug)]
pub struct KeyEvent {
    pub code: KeyCode,
    pub kind: KeyEventKind,
}

/// The five controls that are held rather than triggered.
#[derive(Clone, Copy, Debug, PartialEq, Eq, Structural)]
pub enum Control {
    Forward,
    Back,
    Left,
    Right,
    Handbrake,
}

/// ASCII letters in lower case; every other character unchanged.
pub open spec fn spec_ascii_lower(c: char) -> char {
    if 'A' <= c && c <= 'Z' {
        ((c as u32) + 32) as char
    } else {
        c
    }
}

/// The key with ASCII letters folded to lower case.
pub open spec fn spec_fold(code: KeyCode) -> KeyCode {
    match code {
        KeyCode::Char(c) => KeyCode::Char(spec_ascii_lower(c)),
        other => other,
    }
}

/// The control a key drives: arrows, or W S A D, and space for the handbrake,
/// letters in either case.
pub open spec fn spec_control_of(code: KeyCode) -> Option<Control> {
    match spec_fold(code) {
        KeyCode::Up => Some(Control::Forward),
        KeyCode::Char('w') => Some(Control::Forward),
        KeyCode::Down => Some(Control::Back),
        KeyCode::Char('s') => Some(Control::Back),
        KeyCode::Left => Some(Control::Left),
        KeyCode::Char('a') => Some(Control::Left),
        KeyCode::Right => Some(Control::Right),
        KeyCode::Char('d') => Some(Control::Right),
        KeyCode::Char(' ') => Some(Control::Handbrake),
        _ => None,
    }
}

/// Escape or Q quits; R resets the car. Both act on a press only.
pub open spec fn spec_is_quit(code: KeyCode) -> bool {
    spec_fold(code) == KeyCode::Esc || spec_fold(code) == KeyCode::Char('q')
}

pub open spec fn spec_is_reset(code: KeyCode) -> bool {
    spec_fold(code) == KeyCode::Char('r')
}

fn ascii_lower(c: char) -> (l: char)
    ensures
        l == spec_ascii_lower(c),
{
    if 'A' <= c && c <= 'Z' {
        let b: u8 = c as u8;
        (b + 32) as char
    } else {
        c
    }
}

fn fold(code: KeyCode) -> (f: KeyCode)
    ensures
        f == spec_fold(code),
{
    match code {
        KeyCode::Char(c) => KeyCode::Char(ascii_lower(c)),
        other => other,
    }
}

/// The control a key drives, if any.
pub fn control_of(code: KeyCode) -> (control: Option<Control>)
    ensures
        control == spec_control_of(code),
{
    match fold(code) {
        KeyCode::Up => Some(Control::Forward),
        KeyCode::Down => Some(Control::Back),
        KeyCode::Left => Some(Control::Left),
        KeyCode::Right => Some(Control::Right),
        KeyCode::Char(c) => {
            if c == 'w' {
                Some(Control::Forward)
            } else if c == 's' {
                Some(Control::Back)
            } else if c == 'a' {
                Some(Control::Left)
            } else if c == 'd' {
                Some(Control::Right)
            } else if c == ' ' {
                Some(Control::Handbrake)
            } else {
                None
            }
        },
        _ => None,
    }
}

/// Keys are read without regard to case: an upper-case letter drives the
/// same control, and quits or resets the same way, as its lower-case letter.
pub proof fn lemma_letter_case_ignored(lower: char)
    requires
        'a' <= lower <= 'z',
    ensures
        spec_control_of(KeyCode::Char(((lower as u32) - 32) as char)) == spec_control_of(
            KeyCode::Char(lower),
        ),
        spec_is_quit(KeyCode::Char(((lower as u32) - 32) as char)) == spec_is_quit(
            KeyCode::Char(lower),
        ),
        spec_is_reset(KeyCode::Char(((lower as u32) - 32) as char)) == spec_is_reset(
            KeyCode::Char(lower),
        ),
{
    let upper = ((lower as u32) - 32) as char;
    assert(spec_ascii_lower(upper) == lower);
    assert(spec_ascii_lower(lower) == lower);
}

/// Whether an input last seen `elapsed_millis` ago still counts as held.
pub fn hold_active(elapsed_millis: u128) -> (held: bool)
    ensures
        held == (elapsed_millis < INPUT_HOLD_MILLIS),
{
    elapsed_millis < INPUT_HOLD_MILLIS
}

/// The axis value of two opposing controls: 1, 0 or -1.
pub fn axis(positive: bool, negative: bool) -> (value: i32)
    ensures
        value == (if positive {
            1int
        } else {
            0int
        }) - (if negative {
            1int
        } else {
            0int
        }),
{
    (if positive {
        1i32
    } else {
        0i32
    }) - (if negative {
        1i32
    } else {
        0i32
    })
}

/// Keyboard state: when each held control was last pressed or repeated, and
/// whether a quit or reset was asked for.
pub struct Inputs {
    pub forward: Option<Instant>,
    pub back: Option<Instant>,
    pub left: Option<Instant>,
    pub right: Option<Instant>,
    pub handbrake: Option<Instant>,
    pub reset: bool,
    pub quit: bool,
}

impl Inputs {
    /// The slot a control is recorded in.
    pub open spec fn slot(&self, control: Control) -> Option<Instant> {
        match control {
            Control::Forward => self.forward,
            Control::Back => self.back,
            Control::Left => self.left,
            Control::Right => self.right,
            Control::Handbrake => self.handbrake,
        }
    }

    /// Nothing held, nothing asked for.
    pub fn new() -> (inputs: Inputs)
        ensures
            forall|c: Control| #[trigger] inputs.slot(c) is None,
            !inputs.reset,
            !inputs.quit,
    {
        Inputs {
            forward: None,
            back: None,
            left: None,
            right: None,
            handbrake: None,
            reset: false,
            quit: false,
        }
    }

    /// Records a key event. A press of Escape or Q asks to quit and a press
    /// of R asks for a reset; a press or repeat of a control's key stamps its
    /// slot with the current time, and a release clears it. Other slots and
    /// flags are left as they were.
    pub fn handle(&mut self, event: KeyEvent)
        ensures
            final(self).quit == (old(self).quit || (event.kind == KeyEventKind::Press
                && spec_is_quit(event.code))),
            final(self).reset == (old(self).reset || (event.kind == KeyEventKind::Press
                && spec_is_reset(event.code))),
            forall|c: Control|
                spec_control_of(event.code) != Some(c) ==> #[trigger] final(self).slot(c) == old(
                    self,
                ).slot(c),
            forall|c: Control|
                spec_control_of(event.code) == Some(c) ==> (#[trigger] final(self).slot(c)
                    is Some <==> event.kind != KeyEventKind::Release),
    {
        let code = fold(event.code);
        let pressed = match event.kind {
            KeyEventKind::Press => true,
            _ => false,
        };
        let quit_key = match code {
            KeyCode::Esc => true,
            KeyCode::Char(c) => c == 'q',
            _ => false,
        };
        if pressed && quit_key {
            self.quit = true;
        }
        let reset_key = match code {
            KeyCode::Char(c) => c == 'r',
            _ => false,
        };
        if pressed && reset_key {
            self.reset = true;
        }
        match control_of(event.code) {
            Some(control) => {
                let stamp = match event.kind {
                    KeyEventKind::Release => None,
                    _ => Some(now()),
                };
                match control {
                    Control::Forward => self.forward = stamp,
                    Control::Back => self.back = stamp,
                    Control::Left => self.left = stamp,
                    Control::Right => self.right = stamp,
                    Control::Handbrake => self.handbrake = stamp,
                }
            },
            None => {},
        }
    }

    /// Whether a control stamped at `value` still counts as held: it was
    /// pressed or repeated less than the hold time ago. A control never
    /// pressed, or released since, is not held.
    pub fn held(value: Option<Instant>) -> (held: bool)
        ensures
            held ==> value is Some,
    {
        match value {
            Some(t) => {
                let d = elapsed(&t);
                hold_active(d.as_millis())
            },
            None => false,
        }
    }

    /// Throttle: 1 for forward, -1 for back, 0 for both or neither.
    pub fn throttle(&self) -> (value: i32)
        ensures
            -1 <= value <= 1,
            value == 1 ==> self.forward is Some,
            value == -1 ==> self.back is Some,
            self.forward is None && self.back is None ==> value == 0,
    {
        axis(Self::held(self.forward), Self::held(self.back))
    }

    /// Steering: 1 for right, -1 for left, 0 for both or neither.
    pub fn steer(&self) -> (value: i32)
        ensures
            -1 <= value <= 1,
            value == 1 ==> self.right is Some,
            value == -1 ==> self.left is Some,
            self.right is None && self.left is None ==> value == 0,
    {
        axis(Self::held(self.right), Self::held(self.left))
    }
}

impl Default for Inputs {
    fn default() -> (inputs: Inputs)
        ensures
            forall|c: Control| #[trigger] inputs.slot(c) is None,
            !inputs.reset,
            !inputs.quit,
    {
        Inputs::new()
    }
}

/// Bits of the touch and keyboard input word of the browser build.
pub const WEB_FORWARD: u32 = 1;
pub const WEB_BACK: u32 = 2;
pub const WEB_LEFT: u32 = 4;
pub const WEB_RIGHT: u32 = 8;
pub const WEB_HANDBRAKE: u32 = 16;

/// Controls decoded from the browser's input word.
#[derive(Clone, Copy, Debug)]
pub struct WebControls {
    /// 1 forward, -1 back, 0 both or neither.
    pub throttle: i32,
    /// 1 right, -1 left, 0 both or neither; 0 leaves steering to the joystick.
    pub steer: i32,
    pub handbrake: bool,
}

pub open spec fn bit(input: u32, flag: u32) -> bool {
    input & flag != 0
}

pub open spec fn sign(positive: bool, negative: bool) -> int {
    (if positive {
        1int
    } else {
        0int
    }) - (if negative {
        1int
    } else {
        0int
    })
}

/// Decodes the browser's input word.
pub fn decode_web_input(input: u32) -> (controls: WebControls)
    ensures
        controls.throttle == sign(bit(input, WEB_FORWARD), bit(input, WEB_BACK)),
        controls.steer == sign(bit(input, WEB_RIGHT), bit(input, WEB_LEFT)),
        controls.handbrake == bit(input, WEB_HANDBRAKE),
{
    WebControls {
        throttle: axis(input & WEB_FORWARD != 0, input & WEB_BACK != 0),
        steer: axis(input & WEB_RIGHT != 0, input & WEB_LEFT != 0),
        handbrake: input & WEB_HANDBRAKE != 0,
    }
}

} // verus!
