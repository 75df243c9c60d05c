//! Pressed state of keyboard keys and mouse buttons, updated from window events.
use vstd::prelude::*;

verus! {

/// Number of keyboard key codes tracked.
pub const KEYBOARD_KEY_COUNT: usize = 512;

/// Number of mouse buttons tracked.
pub const MOUSE_BUTTON_COUNT: usize = 32;

/// A mouse button as window events report it.
#[derive(Debug, Clone, Copy, PartialEq, Eq, Structural)]
pub enum MouseButton {
    Left,
    Right,
    Middle,
    Back,
    Forward,
    Other(u16),
}

/// The slot of a mouse button: the five named buttons take slots 0 to 4, and other button `i`
/// takes slot `4 + i`.
pub open spec fn spec_mouse_button_to_usize(button: MouseButton) -> int {
    match button {
        MouseButton::Left => 0,
        MouseButton::Right => 1,
        MouseButton::Middle => 2,
        MouseButton::Back => 3,
        MouseButton::Forward => 4,
        MouseButton::Other(i) => 4 + i,
    }
}

/// The slot of a mouse button in the pressed-state table.
pub fn mouse_button_to_usize(button: &MouseButton) -> (r: usize)
    ensures
        r == spec_mouse_button_to_usize(*button),
{
    match button {
        MouseButton::Left => 0,
        MouseButton::Right => 1,
        MouseButton::Middle => 2,
        MouseButton::Back => 3,
        MouseButton::Forward => 4,
        MouseButton::Other(i) => 4 + *i as usize,
    }
}

/// Which keyboard keys and mouse buttons are held down.
#[derive(Debug, Clone)]
pub struct InputState {
    keyboard_keys: Vec<bool>,
    mouse_buttons: Vec<bool>,
}

impl InputState {
    /// Pressed state of every key code.
    pub closed spec fn spec_keys(&self) -> Seq<bool> {
        self.keyboard_keys@
    }

    /// Pressed state of every mouse button slot.
    pub closed spec fn spec_buttons(&self) -> Seq<bool> {
        self.mouse_buttons@
    }

    /// Both tables have their full size.
    pub open spec fn wf(&self) -> bool {
        &&& self.spec_keys().len() == KEYBOARD_KEY_COUNT
        &&& self.spec_buttons().len() == MOUSE_BUTTON_COUNT
    }

    /// Nothing held down.
    pub fn new() -> (r: Self)
        ensures
            r.wf(),
            forall|i: int| 0 <= i < KEYBOARD_KEY_COUNT ==> !#[trigger] r.spec_keys()[i],
            forall|i: int| 0 <= i < MOUSE_BUTTON_COUNT ==> !#[trigger] r.spec_buttons()[i],
    {
        let mut keyboard_keys: Vec<bool> = Vec::new();
        while keyboard_keys.len() < KEYBOARD_KEY_COUNT
            invariant
                keyboard_keys@.len() <= KEYBOARD_KEY_COUNT,
                forall|i: int| 0 <= i < keyboard_keys@.len() ==> !#[trigger] keyboard_keys@[i],
            decreases KEYBOARD_KEY_COUNT - keyboard_keys@.len(),
        {
            keyboard_keys.push(false);
        }
        let mut mouse_buttons: Vec<bool> = Vec::new();
        while mouse_buttons.len() < MOUSE_BUTTON_COUNT
            invariant
                mouse_buttons@.len() <= MOUSE_BUTTON_COUNT,
                forall|i: int| 0 <= i < mouse_buttons@.len() ==> !#[trigger] mouse_buttons@[i],
            decreases MOUSE_BUTTON_COUNT - mouse_buttons@.len(),
        {
            mouse_buttons.push(false);
        }
        Self { keyboard_keys, mouse_buttons }
    }

    /// Whether the key with code `key_code` is held down.
    pub fn keyboard_key(&self, key_code: usize) -> (r: bool)
        requires
            self.wf(),
            key_code < KEYBOARD_KEY_COUNT,
        ensures
            r == self.spec_keys()[key_code as int],
    {
        self.keyboard_keys[key_code]
    }

    /// Whether `button` is held down.
    pub fn mouse_button(&self, button: MouseButton) -> (r: bool)
        requires
            self.wf(),
            spec_mouse_button_to_usize(button) < MOUSE_BUTTON_COUNT,
        ensures
            r == self.spec_buttons()[spec_mouse_button_to_usize(button)],
    {
        self.mouse_buttons[mouse_button_to_usize(&button)]
    }

    /// A keyboard event: a key with a code that is not a repeat sets that key to `pressed`;
    /// repeats and keys without a code change nothing.
    pub fn apply_keyboard_input(&mut self, key_code: Option<usize>, pressed: bool, repeat: bool)
        requires
            old(self).wf(),
            !repeat ==> (key_code matches Some(k) ==> k < KEYBOARD_KEY_COUNT),
        ensures
            final(self).wf(),
            final(self).spec_buttons() == old(self).spec_buttons(),
            final(self).spec_keys() == match key_code {
                Some(k) if !repeat => old(self).spec_keys().update(k as int, pressed),
                _ => old(self).spec_keys(),
            },
    {
        if !repeat {
            if let Some(k) = key_code {
                self.keyboard_keys.set(k, pressed);
            }
        }
    }

    /// A mouse button event: sets `button` to `pressed`.
    pub fn apply_mouse_input(&mut self, button: MouseButton, pressed: bool)
        requires
            old(self).wf(),
            spec_mouse_button_to_usize(button) < MOUSE_BUTTON_COUNT,
        ensures
            final(self).wf(),
            final(self).spec_keys() == old(self).spec_keys(),
            final(self).spec_buttons() == old(self).spec_buttons().update(
                spec_mouse_button_to_usize(button),
                pressed,
            ),
    {
        let slot = mouse_button_to_usize(&button);
        self.mouse_buttons.set(slot, pressed);
    }
}

impl Default for InputState {
    fn default() -> (r: Self)
        ensures
            r.wf(),
            forall|i: int| 0 <= i < KEYBOARD_KEY_COUNT ==> !#[trigger] r.spec_keys()[i],
            forall|i: int| 0 <= i < MOUSE_BUTTON_COUNT ==> !#[trigger] r.spec_buttons()[i],
    {
        Self::new()
    }
}

} // verus!
