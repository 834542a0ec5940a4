//! What the keyboard and mouse ask of the camera controls.
//!
//! The controls keep which movement keys are held and whether the mouse
//! steers the camera.  Turning this into motion in space is the caller's.

use vstd::prelude::*;
use vstd::string::*;

verus! {

/// What the application should do after an input event.
#[derive(PartialEq, Eq, Structural, Clone, Copy, Debug)]
pub enum InputEventResult {
    /// The event was handled; nothing more to do.
    Handled,
    RequestClose,
    RequestLockCursor,
    RequestUnlockCursor,
    CameraMoved,
}

/// A mouse button.
#[derive(PartialEq, Eq, Structural, Clone, Copy, Debug)]
pub enum MouseButton {
    Left,
    Right,
    Middle,
    Back,
    Forward,
    Other(u16),
}

/// The logical key of a keyboard event.
#[derive(PartialEq, Eq, Clone, Debug)]
pub enum LogicalKey {
    /// The escape key.
    Escape,
    /// A key that produces text, with that text.
    Character(String),
    /// Another named key, with the text it stands for if it stands for any
    /// (the space bar stands for " ").
    Named(Option<String>),
    /// A key that is neither.
    Unidentified,
}

/// A keyboard event: the key, and whether it went down (else up).
#[derive(PartialEq, Eq, Clone, Debug)]
pub struct KeyEvent {
    pub logical_key: LogicalKey,
    pub pressed: bool,
}

/// A direction of movement that a key controls.
#[derive(PartialEq, Eq, Structural, Clone, Copy, Debug)]
pub enum Movement {
    Right,
    Left,
    Forward,
    Back,
    Up,
    Down,
}

/// The movement that a key's text controls: "E" right, "A" left, "Ä"
/// forward, "O" back, " " up and "J" down.
pub open spec fn movement_of_key(key: Seq<char>) -> Option<Movement> {
    if key == seq!['E'] {
        Some(Movement::Right)
    } else if key == seq!['A'] {
        Some(Movement::Left)
    } else if key == seq!['Ä'] {
        Some(Movement::Forward)
    } else if key == seq!['O'] {
        Some(Movement::Back)
    } else if key == seq![' '] {
        Some(Movement::Up)
    } else if key == seq!['J'] {
        Some(Movement::Down)
    } else {
        None
    }
}

/// The character keys that the controls listen to, once upper-cased.
pub open spec fn is_listened_character(key: Seq<char>) -> bool {
    key == seq!['Ä'] || key == seq!['O'] || key == seq!['E'] || key == seq!['A'] || key
        == seq!['J']
}

/// The named keys that the controls listen to, by their text.
pub open spec fn is_listened_named(text: Seq<char>) -> bool {
    text == seq![' '] || text == seq!['F', '1']
}

/// The upper-case form of a string, as the standard library's
/// `str::to_uppercase` gives it.
pub uninterp spec fn uppercase_of(text: Seq<char>) -> Seq<char>;

/// Calls `str::to_uppercase`.  The result is the upper-case form of `text`
/// by the Unicode case tables; what that is on given text is not stated
/// here, only that it depends on the text alone.
#[verifier::external_body]
fn to_uppercase(text: &str) -> (upper: String)
    ensures
        upper@ == uppercase_of(text@),
{
    text.to_uppercase()
}

/// The only character of `text`, if it has exactly one.
fn single_char(text: &str) -> (c: Option<char>)
    ensures
        c == if text@.len() == 1 {
            Some(text@[0])
        } else {
            None::<char>
        },
{
    if text.unicode_len() == 1 {
        Some(text.get_char(0))
    } else {
        None
    }
}

/// Whether the upper-cased character key `upper` is one the controls
/// listen to.
fn listened_character(upper: &str) -> (listened: bool)
    ensures
        listened == is_listened_character(upper@),
{
    let c = single_char(upper);
    proof {
        if upper@.len() == 1 {
            assert(upper@ =~= seq![upper@[0]]);
        }
    }
    match c {
        Some('Ä') | Some('O') | Some('E') | Some('A') | Some('J') => true,
        _ => false,
    }
}

/// Whether the named key with text `text` is one the controls listen to.
fn listened_named(text: &str) -> (listened: bool)
    ensures
        listened == is_listened_named(text@),
{
    let n = text.unicode_len();
    proof {
        if n == 1 {
            assert(text@ =~= seq![text@[0]]);
        }
        if n == 2 {
            assert(text@ =~= seq![text@[0], text@[1]]);
        }
    }
    if n == 1 {
        text.get_char(0) == ' '
    } else if n == 2 {
        text.get_char(0) == 'F' && text.get_char(1) == '1'
    } else {
        false
    }
}

/// Whether handling `key_event` records a key as held or released (and so
/// the movement it asks for is to be worked out anew): the event is for a
/// listened character key, compared upper-cased, or a listened named key.
pub fn updates_key_state(key_event: &KeyEvent) -> (updates: bool)
    ensures
        updates == match key_event.logical_key {
            LogicalKey::Character(text) => is_listened_character(uppercase_of(text@)),
            LogicalKey::Named(Some(text)) => is_listened_named(text@),
            _ => false,
        },
{
    match &key_event.logical_key {
        LogicalKey::Character(text) => {
            let upper = to_uppercase(text.as_str());
            listened_character(upper.as_str())
        },
        LogicalKey::Named(Some(text)) => listened_named(text.as_str()),
        _ => false,
    }
}

/// The movement keys held, and whether mouse motion steers the camera.
#[derive(PartialEq, Eq, Structural, Clone, Copy, Debug)]
pub struct Controls {
    pub right_pressed: bool,
    pub left_pressed: bool,
    pub forward_pressed: bool,
    pub back_pressed: bool,
    pub up_pressed: bool,
    pub down_pressed: bool,
    pub camera_controlled: bool,
}

impl Controls {
    /// Whether the key for `movement` is held.
    pub open spec fn held(self, movement: Movement) -> bool {
        match movement {
            Movement::Right => self.right_pressed,
            Movement::Left => self.left_pressed,
            Movement::Forward => self.forward_pressed,
            Movement::Back => self.back_pressed,
            Movement::Up => self.up_pressed,
            Movement::Down => self.down_pressed,
        }
    }

    /// These controls with the key for `movement` held or released.
    pub open spec fn with_held(self, movement: Movement, pressed: bool) -> Controls {
        match movement {
            Movement::Right => Controls { right_pressed: pressed, ..self },
            Movement::Left => Controls { left_pressed: pressed, ..self },
            Movement::Forward => Controls { forward_pressed: pressed, ..self },
            Movement::Back => Controls { back_pressed: pressed, ..self },
            Movement::Up => Controls { up_pressed: pressed, ..self },
            Movement::Down => Controls { down_pressed: pressed, ..self },
        }
    }

    /// These controls with mouse steering switched on or off.
    pub open spec fn with_camera_toggled(self) -> Controls {
        Controls { camera_controlled: !self.camera_controlled, ..self }
    }

    /// These controls after a key with text `key` went down or up.
    pub open spec fn after_key(self, key: Seq<char>, pressed: bool) -> Controls {
        match movement_of_key(key) {
            Some(movement) => self.with_held(movement, pressed),
            None => self,
        }
    }

    /// No key held, and the mouse does not steer the camera.
    pub fn new() -> (controls: Controls)
        ensures
            !controls.right_pressed,
            !controls.left_pressed,
            !controls.forward_pressed,
            !controls.back_pressed,
            !controls.up_pressed,
            !controls.down_pressed,
            !controls.camera_controlled,
    {
        Controls {
            right_pressed: false,
            left_pressed: false,
            forward_pressed: false,
            back_pressed: false,
            up_pressed: false,
            down_pressed: false,
            camera_controlled: false,
        }
    }

    /// Records that the key with text `key` went down (`pressed`) or up.
    pub fn update_key_state(&mut self, key: &str, pressed: bool)
        ensures
            *final(self) == old(self).after_key(key@, pressed),
    {
        match single_char(key) {
            Some('E') => self.right_pressed = pressed,
            Some('A') => self.left_pressed = pressed,
            Some('Ä') => self.forward_pressed = pressed,
            Some('O') => self.back_pressed = pressed,
            Some(' ') => self.up_pressed = pressed,
            Some('J') => self.down_pressed = pressed,
            _ => {},
        }
        proof {
            if key@.len() == 1 {
                assert(key@ =~= seq![key@[0]]);
            }
        }
    }

    /// Handles a character key whose text, upper-cased, is `upper`: a listened
    /// key updates the held keys.
    pub fn handle_character_key(&mut self, upper: &str, pressed: bool) -> (result: InputEventResult)
        ensures
            result == InputEventResult::Handled,
            *final(self) == if is_listened_character(upper@) {
                old(self).after_key(upper@, pressed)
            } else {
                *old(self)
            },
    {
        if listened_character(upper) {
            self.update_key_state(upper, pressed);
        }
        InputEventResult::Handled
    }

    /// Handles a named key that stands for `text`: a listened key updates
    /// the held keys.
    pub fn handle_named_key(&mut self, text: &str, pressed: bool) -> (result: InputEventResult)
        ensures
            result == InputEventResult::Handled,
            *final(self) == if is_listened_named(text@) {
                old(self).after_key(text@, pressed)
            } else {
                *old(self)
            },
    {
        if listened_named(text) {
            self.update_key_state(text, pressed);
        }
        InputEventResult::Handled
    }

    /// Handles a keyboard event: escape asks to close; a listened character
    /// key (compared upper-cased) or named key updates the held keys.
    pub fn handle_key_input(&mut self, key_event: KeyEvent) -> (result: InputEventResult)
        ensures
            match key_event.logical_key {
                LogicalKey::Escape => result == InputEventResult::RequestClose && *final(self)
                    == *old(self),
                LogicalKey::Character(text) => {
                    let upper = uppercase_of(text@);
                    &&& result == InputEventResult::Handled
                    &&& *final(self) == if is_listened_character(upper) {
                        old(self).after_key(upper, key_event.pressed)
                    } else {
                        *old(self)
                    }
                },
                LogicalKey::Named(Some(text)) => {
                    &&& result == InputEventResult::Handled
                    &&& *final(self) == if is_listened_named(text@) {
                        old(self).after_key(text@, key_event.pressed)
                    } else {
                        *old(self)
                    }
                },
                _ => result == InputEventResult::Handled && *final(self) == *old(self),
            },
    {
        match key_event.logical_key {
            LogicalKey::Escape => InputEventResult::RequestClose,
            LogicalKey::Character(text) => {
                let upper = to_uppercase(text.as_str());
                self.handle_character_key(upper.as_str(), key_event.pressed)
            },
            LogicalKey::Named(Some(text)) => self.handle_named_key(text.as_str(), key_event.pressed),
            _ => InputEventResult::Handled,
        }
    }

    /// Handles a mouse button press: the left button toggles whether the mouse
    /// steers the camera and asks to lock the cursor when it now does, to
    /// unlock it when it no longer does.
    pub fn handle_mouse_input(&mut self, button: MouseButton) -> (result: InputEventResult)
        ensures
            button == MouseButton::Left ==> {
                &&& *final(self) == old(self).with_camera_toggled()
                &&& result == if final(self).camera_controlled {
                    InputEventResult::RequestLockCursor
                } else {
                    InputEventResult::RequestUnlockCursor
                }
            },
            button != MouseButton::Left ==> *final(self) == *old(self) && result
                == InputEventResult::Handled,
    {
        match button {
            MouseButton::Left => {
                self.camera_controlled = !self.camera_controlled;
                if self.camera_controlled {
                    return InputEventResult::RequestLockCursor;
                }
                InputEventResult::RequestUnlockCursor
            },
            _ => InputEventResult::Handled,
        }
    }

    /// Whether a mouse motion turns the camera: it does while the mouse
    /// steers the camera.
    pub fn handle_mouse_move(&self) -> (result: InputEventResult)
        ensures
            result == if self.camera_controlled {
                InputEventResult::CameraMoved
            } else {
                InputEventResult::Handled
            },
    {
        if self.camera_controlled {
            return InputEventResult::CameraMoved;
        }
        InputEventResult::Handled
    }

    /// The movement asked for in the camera's own frame, one unit per axis:
    /// (right - left, forward - back, up - down), each held key counting 1.
    pub fn local_acceleration(&self) -> (a: (i8, i8, i8))
        ensures
            a.0 == (self.right_pressed as int) - (self.left_pressed as int),
            a.1 == (self.forward_pressed as int) - (self.back_pressed as int),
            a.2 == (self.up_pressed as int) - (self.down_pressed as int),
    {
        (
            (self.right_pressed as i8) - (self.left_pressed as i8),
            (self.forward_pressed as i8) - (self.back_pressed as i8),
            (self.up_pressed as i8) - (self.down_pressed as i8),
        )
    }
}

/// Pressing the left mouse button twice leaves the controls as they were.
pub proof fn lemma_left_click_twice(controls: Controls)
    ensures
        controls.with_camera_toggled().with_camera_toggled() == controls,
{
}

/// Of two events for the same key, the later one decides: the key is then
/// held exactly when the later event was a press, and no other key changes.
pub proof fn lemma_later_key_event_decides(
    controls: Controls,
    key: Seq<char>,
    first: bool,
    second: bool,
)
    ensures
        controls.after_key(key, first).after_key(key, second) == controls.after_key(key, second),
        (movement_of_key(key) matches Some(m) ==> controls.after_key(key, second).held(m)
            == second),
        forall|m: Movement|
            movement_of_key(key) != Some(m) ==> #[trigger] controls.after_key(key, second).held(m)
                == controls.held(m),
{
}

} // verus!
