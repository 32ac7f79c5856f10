//! Domain types: the value-level vocabulary shared by the configuration, the
//! backends and the pipeline.
//!
//! A `SoundId` is a 1-based slot number that is never zero; inputs are a closed
//! `InputEvent` enum; `Action` has a single variant, `PlaySound`.
use vstd::prelude::*;

verus! {

/// A resolved sound slot. `0` is reserved, so every `SoundId` is at least 1.
///
/// `SoundId` 1 is the first sound, 2 the second, and so on: the sound table is
/// indexed by `get() - 1`.
#[derive(Debug, Clone, Copy, PartialEq, Eq, Hash, Structural)]
pub struct SoundId {
    index: u16,
}

impl SoundId {
    #[verifier::type_invariant]
    spec fn nonzero(self) -> bool {
        self.index != 0
    }

    /// The slot number held by this id.
    pub closed spec fn value(self) -> u16 {
        self.index
    }

    /// Two ids are equal exactly when their slot numbers are.
    pub broadcast proof fn lemma_value_injective(a: SoundId, b: SoundId)
        ensures
            #[trigger] a.value() == #[trigger] b.value() <==> a == b,
    {
    }

    /// Construct from a 1-based index. Returns `None` for `0` (the "no sound" slot).
    pub fn new(index: u16) -> (r: Option<SoundId>)
        ensures
            r is Some <==> index != 0,
            r matches Some(id) ==> id.value() == index,
    {
        if index == 0 {
            None
        } else {
            Some(SoundId { index })
        }
    }

    /// The 1-based index. Use for table lookups as `get() - 1`.
    pub fn get(self) -> (r: u16)
        ensures
            r == self.value(),
            r >= 1,
    {
        proof {
            use_type_invariant(&self);
        }
        self.index
    }
}

/// Mouse buttons the engine distinguishes. Keyboards carry a raw `u16` keycode.
#[derive(Debug, Clone, Copy, PartialEq, Eq, Hash, Structural)]
pub enum MouseButton {
    Left,
    Right,
    Middle,
    /// X1 / X2 side buttons.
    Back,
    Forward,
    /// Any other button the backend reported but that has no name here.
    Other(u16),
}

/// The evdev `BTN_*` ladder: 0x110 left, 0x111 right, 0x112 middle,
/// 0x113 (SIDE) and 0x116 (BACK) back, 0x114 (EXTRA) and 0x115 (FORWARD)
/// forward, 0x117 (TASK) an unnamed button; any other code is not a button.
pub open spec fn evdev_button(code: u16) -> Option<MouseButton> {
    if code == 0x110 {
        Some(MouseButton::Left)
    } else if code == 0x111 {
        Some(MouseButton::Right)
    } else if code == 0x112 {
        Some(MouseButton::Middle)
    } else if code == 0x113 || code == 0x116 {
        Some(MouseButton::Back)
    } else if code == 0x114 || code == 0x115 {
        Some(MouseButton::Forward)
    } else if code == 0x117 {
        Some(MouseButton::Other(code))
    } else {
        None
    }
}

/// macOS button numbers: 0..=4 are named, any other number `n` is
/// `Other(n as u16)` (the number truncated to 16 bits).
pub open spec fn cg_button(n: i64) -> MouseButton {
    if n == 0 {
        MouseButton::Left
    } else if n == 1 {
        MouseButton::Right
    } else if n == 2 {
        MouseButton::Middle
    } else if n == 3 {
        MouseButton::Back
    } else if n == 4 {
        MouseButton::Forward
    } else {
        MouseButton::Other(n as u16)
    }
}

/// Windows extra-button ids: 1 is XBUTTON1 (back), anything else XBUTTON2 (forward).
pub open spec fn windows_xbutton(x_id: u16) -> MouseButton {
    if x_id == 1 {
        MouseButton::Back
    } else {
        MouseButton::Forward
    }
}

impl MouseButton {
    /// Map a Linux evdev button code (the `BTN_*` numeric values) to a button.
    ///
    /// This is the canonical mouse-button vocabulary: the JSON configuration
    /// reuses the same numbers (272/273/274 = 0x110/1/2). Returns `None` for a
    /// code that is not a button (a keyboard key).
    pub fn from_evdev_code(code: u16) -> (r: Option<MouseButton>)
        ensures
            r == evdev_button(code),
    {
        match code {
            0x110 => Some(MouseButton::Left),
            0x111 => Some(MouseButton::Right),
            0x112 => Some(MouseButton::Middle),
            0x113 | 0x116 => Some(MouseButton::Back),
            0x114 | 0x115 => Some(MouseButton::Forward),
            0x117 => Some(MouseButton::Other(code)),
            _ => None,
        }
    }

    /// Map a macOS `OtherMouseDown` button number (0..=4) to a button.
    pub fn from_cg_button_number(n: i64) -> (r: MouseButton)
        ensures
            r == cg_button(n),
    {
        match n {
            0 => MouseButton::Left,
            1 => MouseButton::Right,
            2 => MouseButton::Middle,
            3 => MouseButton::Back,
            4 => MouseButton::Forward,
            other => MouseButton::Other(other as u16),
        }
    }

    /// Map a Windows `WM_XBUTTONDOWN` extra-button id (1 or 2) to a button.
    /// 1 = XBUTTON1 (Back), any other value = XBUTTON2 (Forward).
    pub fn from_windows_xbutton(x_id: u16) -> (r: MouseButton)
        ensures
            r == windows_xbutton(x_id),
    {
        if x_id == 1 {
            MouseButton::Back
        } else {
            MouseButton::Forward
        }
    }
}

/// A normalized input event flowing through the pipeline.
///
/// Backends translate their platform events into this enum and only emit `Key`
/// on the press edge, so a key never plays twice.
#[derive(Debug, Clone, Copy, PartialEq, Eq, Hash, Structural)]
pub enum InputEvent {
    /// A keyboard key, identified by its platform keycode.
    Key(u16),
    /// A mouse button press.
    Mouse(MouseButton),
    /// Something detected but not handled (a trackpad, a repeat).
    Ignored,
}

/// An action the executor can perform.
#[derive(Debug, Clone, Copy, PartialEq, Eq, Structural)]
pub enum Action {
    PlaySound(SoundId),
}

/// A single rule: when `trigger` fires, run `actions` in order.
#[derive(Debug, Clone, PartialEq, Eq)]
pub struct CompiledRule {
    pub trigger: InputEvent,
    pub actions: Vec<Action>,
}

impl View for CompiledRule {
    type V = (InputEvent, Seq<Action>);

    open spec fn view(&self) -> (InputEvent, Seq<Action>) {
        (self.trigger, self.actions@)
    }
}

impl CompiledRule {
    pub fn new(trigger: InputEvent, actions: Vec<Action>) -> (r: CompiledRule)
        ensures
            r.trigger == trigger,
            r.actions == actions,
    {
        CompiledRule { trigger, actions }
    }
}

} // verus!
