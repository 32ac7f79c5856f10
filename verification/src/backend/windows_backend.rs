//! Windows backend: the decisions of the low-level keyboard and mouse hooks.
//!
//! The hooks themselves (installation, message pump, the channel to the
//! pipeline) run outside the library; each hook callback hands its raw
//! arguments to the functions here and forwards the event they return.
use crate::backend::BackendError;
use crate::domain::{windows_xbutton, InputEvent, MouseButton};
use vstd::prelude::*;
use vstd::string::*;

verus! {

/// Win32 message id of a key press.
pub const WM_KEYDOWN: u32 = 0x0100;

/// Win32 message id of a key press while ALT is held.
pub const WM_SYSKEYDOWN: u32 = 0x0104;

/// Win32 message id of a left button press.
pub const WM_LBUTTONDOWN: u32 = 0x0201;

/// Win32 message id of a right button press.
pub const WM_RBUTTONDOWN: u32 = 0x0204;

/// Win32 message id of a middle button press.
pub const WM_MBUTTONDOWN: u32 = 0x0207;

/// Win32 message id of an extra (X1/X2) button press.
pub const WM_XBUTTONDOWN: u32 = 0x020B;

/// The event a low-level keyboard hook reports: a key press (`WM_KEYDOWN` or
/// `WM_SYSKEYDOWN`, hook code not negative) is the virtual-key code, cut to
/// 16 bits; any other message reports nothing.
pub open spec fn keyboard_hook_spec(code: i32, wparam: usize, vk_code: u32) -> Option<InputEvent> {
    if code >= 0 && ((wparam as u32) == WM_KEYDOWN || (wparam as u32) == WM_SYSKEYDOWN) {
        Some(InputEvent::Key(vk_code as u16))
    } else {
        None
    }
}

/// The event a low-level mouse hook reports: left, right and middle button
/// presses name their button; an extra-button press names the button in the
/// high word of `mouse_data`; anything else reports nothing.
pub open spec fn mouse_hook_spec(code: i32, wparam: usize, mouse_data: u32) -> Option<InputEvent> {
    if code < 0 {
        None
    } else if (wparam as u32) == WM_LBUTTONDOWN {
        Some(InputEvent::Mouse(MouseButton::Left))
    } else if (wparam as u32) == WM_RBUTTONDOWN {
        Some(InputEvent::Mouse(MouseButton::Right))
    } else if (wparam as u32) == WM_MBUTTONDOWN {
        Some(InputEvent::Mouse(MouseButton::Middle))
    } else if (wparam as u32) == WM_XBUTTONDOWN {
        Some(InputEvent::Mouse(windows_xbutton(((mouse_data >> 16u32) & 0xFFFFu32) as u16)))
    } else {
        None
    }
}

/// The keyboard hook reports exactly the key presses: a message reports a key
/// if and only if the hook code is not negative and the message id is 0x100
/// (key down) or 0x104 (system key down), and then the key is the low 16 bits
/// of the virtual-key code. Releases (0x101, 0x105) and every other message
/// report nothing.
pub proof fn lemma_keyboard_hook_reports_presses(code: i32, wparam: usize, vk_code: u32)
    ensures
        keyboard_hook_spec(code, wparam, vk_code) is Some <==> (code >= 0 && ((wparam as u32)
            == 0x100 || (wparam as u32) == 0x104)),
        keyboard_hook_spec(code, wparam, vk_code) is Some ==> keyboard_hook_spec(
            code,
            wparam,
            vk_code,
        ) == Some(InputEvent::Key(vk_code as u16)),
        keyboard_hook_spec(code, 0x101, vk_code) is None,
        keyboard_hook_spec(code, 0x105, vk_code) is None,
{
}

/// The mouse hook reports exactly the button presses: a message reports a
/// button if and only if the hook code is not negative and the message id is
/// 0x201 (left), 0x204 (right), 0x207 (middle) or 0x20B (extra button, named
/// by the high word of the mouse data: 1 back, anything else forward).
pub proof fn lemma_mouse_hook_reports_presses(code: i32, wparam: usize, mouse_data: u32)
    ensures
        mouse_hook_spec(code, wparam, mouse_data) is Some <==> (code >= 0 && ((wparam as u32)
            == 0x201 || (wparam as u32) == 0x204 || (wparam as u32) == 0x207 || (wparam as u32)
            == 0x20B)),
        code >= 0 && (wparam as u32) == 0x201 ==> mouse_hook_spec(code, wparam, mouse_data)
            == Some(InputEvent::Mouse(MouseButton::Left)),
        code >= 0 && (wparam as u32) == 0x204 ==> mouse_hook_spec(code, wparam, mouse_data)
            == Some(InputEvent::Mouse(MouseButton::Right)),
        code >= 0 && (wparam as u32) == 0x207 ==> mouse_hook_spec(code, wparam, mouse_data)
            == Some(InputEvent::Mouse(MouseButton::Middle)),
        code >= 0 && (wparam as u32) == 0x20B ==> mouse_hook_spec(code, wparam, mouse_data)
            == Some(
            InputEvent::Mouse(
                if (mouse_data >> 16u32) & 0xFFFFu32 == 1 {
                    MouseButton::Back
                } else {
                    MouseButton::Forward
                },
            ),
        ),
{
    let x = (mouse_data >> 16u32) & 0xFFFFu32;
    assert(x <= 0xFFFF) by (bit_vector)
        requires
            x == (mouse_data >> 16u32) & 0xFFFFu32,
    ;
    assert((x as u16) as int == x as int);
}

/// A platform input source using Win32 low-level hooks.
pub struct WindowsBackend {
    /// Kept for parity with the Linux backend; the low-level mouse hook does not
    /// tell trackpads apart.
    enable_trackpads: bool,
}

impl WindowsBackend {
    pub closed spec fn trackpads_enabled(&self) -> bool {
        self.enable_trackpads
    }

    pub fn new(enable_trackpads: bool) -> (r: WindowsBackend)
        ensures
            r.trackpads_enabled() == enable_trackpads,
    {
        WindowsBackend { enable_trackpads }
    }

    pub fn enable_trackpads(&self) -> (r: bool)
        ensures
            r == self.trackpads_enabled(),
    {
        self.enable_trackpads
    }
}

/// The decision of the keyboard hook procedure.
pub fn keyboard_hook_event(code: i32, wparam: usize, vk_code: u32) -> (r: Option<InputEvent>)
    ensures
        r == keyboard_hook_spec(code, wparam, vk_code),
{
    let msg = wparam as u32;
    if code >= 0 && (msg == WM_KEYDOWN || msg == WM_SYSKEYDOWN) {
        Some(InputEvent::Key(vk_code as u16))
    } else {
        None
    }
}

/// The decision of the mouse hook procedure.
pub fn mouse_hook_event(code: i32, wparam: usize, mouse_data: u32) -> (r: Option<InputEvent>)
    ensures
        r == mouse_hook_spec(code, wparam, mouse_data),
{
    if code < 0 {
        return None;
    }
    let msg = wparam as u32;
    let button = if msg == WM_LBUTTONDOWN {
        Some(MouseButton::Left)
    } else if msg == WM_RBUTTONDOWN {
        Some(MouseButton::Right)
    } else if msg == WM_MBUTTONDOWN {
        Some(MouseButton::Middle)
    } else if msg == WM_XBUTTONDOWN {
        let x_id = ((mouse_data >> 16u32) & 0xFFFFu32) as u16;
        Some(MouseButton::from_windows_xbutton(x_id))
    } else {
        None
    };
    match button {
        Some(b) => Some(InputEvent::Mouse(b)),
        None => None,
    }
}

/// Install a fresh sender in the hooks' slot, refusing while one is live: a
/// second start would have the old hook thread push into the new channel.
pub fn start_sender<T>(slot: &mut Option<T>, tx: T) -> (r: Result<(), BackendError>)
    ensures
        (*old(slot)) is Some ==> (r matches Err(BackendError::Start(m)) && m@
            == "backend already running"@) && *final(slot) == *old(slot),
        (*old(slot)) is None ==> r is Ok && *final(slot) == Some(tx),
{
    if slot.is_some() {
        return Err(BackendError::Start(String::from_str("backend already running")));
    }
    *slot = Some(tx);
    Ok(())
}

/// Clear the hooks' slot: after a stream is dropped, or a start failed, no
/// stale sender stays behind.
pub fn clear_sender<T>(slot: &mut Option<T>)
    ensures
        (*final(slot)) is None,
{
    *slot = None;
}

} // verus!
