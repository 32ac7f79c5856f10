//! Linux backend (evdev): the per-device and per-event decisions.
//!
//! Device enumeration, the per-device event streams and hotplug run outside
//! the library; they hand what they read (key codes, press values, device
//! names and capabilities) to the functions here.
use crate::backend::BackendError;
use crate::config::{chars_of, trigger_of};
use crate::domain::CompiledRule;
use crate::pipeline::{plays_of, route_of, Route};
use crate::domain::{evdev_button, InputEvent, MouseButton};
use vstd::prelude::*;

verus! {

/// Linux evdev input backend.
pub struct EvdevBackend {
    enable_trackpads: bool,
}

impl EvdevBackend {
    pub closed spec fn trackpads_enabled(&self) -> bool {
        self.enable_trackpads
    }

    pub fn new(enable_trackpads: bool) -> (r: EvdevBackend)
        ensures
            r.trackpads_enabled() == enable_trackpads,
    {
        EvdevBackend { enable_trackpads }
    }

    pub fn enable_trackpads(&self) -> (r: bool)
        ensures
            r == self.trackpads_enabled(),
    {
        self.enable_trackpads
    }
}

/// What a device reports supporting, as far as the classification reads it.
/// A device that reports no key (or no relative-axis) set has `false` there.
#[derive(Debug, Clone, Copy, PartialEq, Eq, Structural)]
pub struct DeviceCaps {
    pub key_enter: bool,
    pub key_space: bool,
    pub btn_left: bool,
    pub rel_x: bool,
}

/// A keyboard has both ENTER and SPACE.
pub fn is_keyboard(caps: &DeviceCaps) -> (r: bool)
    ensures
        r == (caps.key_enter && caps.key_space),
{
    caps.key_enter && caps.key_space
}

/// A mouse has a relative X axis and a left button.
pub fn is_mouse(caps: &DeviceCaps) -> (r: bool)
    ensures
        r == (caps.rel_x && caps.btn_left),
{
    caps.rel_x && caps.btn_left
}

/// A device is worth listening to if it looks like a keyboard or a mouse.
pub fn is_interesting(caps: &DeviceCaps) -> (r: bool)
    ensures
        r == ((caps.key_enter && caps.key_space) || (caps.rel_x && caps.btn_left)),
{
    is_keyboard(caps) || is_mouse(caps)
}

/// Hotplug: open a device that is not known yet and looks like a keyboard or
/// a mouse.
pub fn should_open(already_known: bool, caps: &DeviceCaps) -> (r: bool)
    ensures
        r == (!already_known && ((caps.key_enter && caps.key_space) || (caps.rel_x
            && caps.btn_left))),
{
    !already_known && is_interesting(caps)
}

/// Fail fast on a permission problem: when interesting devices exist but not
/// one of them can be opened, that is almost certainly a permission denial.
pub fn probe_permission(openable: &Vec<bool>) -> (r: Result<(), BackendError>)
    ensures
        r is Err <==> (openable@.len() > 0 && forall|i: int|
            0 <= i < openable@.len() ==> !#[trigger] openable@[i]),
        r matches Err(e) ==> e is Permission,
{
    if openable.len() == 0 {
        return Ok(());
    }
    let mut i: usize = 0;
    while i < openable.len()
        invariant
            i <= openable@.len(),
            forall|j: int| 0 <= j < i ==> !#[trigger] openable@[j],
        decreases openable@.len() - i,
    {
        if openable[i] {
            return Ok(());
        }
        i = i + 1;
    }
    Err(BackendError::Permission)
}

/// The event of an evdev key code: the codes of the evdev button ladder are
/// that mouse button, any other code is a keyboard key.
pub open spec fn key_code_event(code: u16) -> InputEvent {
    match evdev_button(code) {
        Some(b) => InputEvent::Mouse(b),
        None => InputEvent::Key(code),
    }
}

/// Map an evdev key code to an `InputEvent`. Mouse buttons become `Mouse`,
/// everything else is a keyboard `Key(code)`.
pub fn translate_key(code: u16) -> (r: InputEvent)
    ensures
        r == key_code_event(code),
{
    match code {
        0x110 => InputEvent::Mouse(MouseButton::Left),
        0x111 => InputEvent::Mouse(MouseButton::Right),
        0x112 => InputEvent::Mouse(MouseButton::Middle),
        0x113 | 0x116 => InputEvent::Mouse(MouseButton::Back),
        0x114 | 0x115 => InputEvent::Mouse(MouseButton::Forward),
        other => {
            // Every code in 0x110..=0x117 but 0x117 has a name above: only
            // an unnamed button in that range reaches this branch.
            if 0x110 <= other && other <= 0x117 {
                InputEvent::Mouse(MouseButton::Other(other))
            } else {
                InputEvent::Key(other)
            }
        },
    }
}

/// The event forwarded for an evdev key event with this value and code.
pub open spec fn press_event(value: i32, code: u16, is_trackpad: bool, enable_trackpads: bool) -> Option<
    InputEvent,
> {
    if value == 1 {
        Some(
            if is_trackpad && !enable_trackpads {
                InputEvent::Ignored
            } else {
                key_code_event(code)
            },
        )
    } else {
        None
    }
}

/// The event forwarded for one evdev key event: only the press edge
/// (`value == 1`) is forwarded; a press on a trackpad is `Ignored` unless
/// trackpads are enabled.
pub fn key_event(value: i32, code: u16, is_trackpad: bool, enable_trackpads: bool) -> (r: Option<
    InputEvent,
>)
    ensures
        r == press_event(value, code, is_trackpad, enable_trackpads),
{
    if value == 1 {
        if is_trackpad && !enable_trackpads {
            Some(InputEvent::Ignored)
        } else {
            Some(translate_key(code))
        }
    } else {
        None
    }
}

/// The configuration's mouse keys 272, 273 and 274 name the same buttons as
/// the evdev codes 0x110, 0x111 and 0x112: a mapping for `"272"` fires on the
/// event the evdev backend reports for code 272.
pub proof fn lemma_config_mouse_keys_follow_evdev()
    ensures
        trigger_of(seq!['2', '7', '2']) == Some(key_code_event(272)),
        trigger_of(seq!['2', '7', '3']) == Some(key_code_event(273)),
        trigger_of(seq!['2', '7', '4']) == Some(key_code_event(274)),
{
    assert(seq!['2', '7', '3'] != seq!['2', '7', '2']) by {
        assert(seq!['2', '7', '3'][2] != seq!['2', '7', '2'][2]);
    }
    assert(seq!['2', '7', '4'] != seq!['2', '7', '2']) by {
        assert(seq!['2', '7', '4'][2] != seq!['2', '7', '2'][2]);
    }
    assert(seq!['2', '7', '4'] != seq!['2', '7', '3']) by {
        assert(seq!['2', '7', '4'][2] != seq!['2', '7', '3'][2]);
    }
}

/// A press on a trackpad, with trackpads disabled, reaches the pipeline as
/// `Ignored`, which the pipeline filters: it never plays.
pub proof fn lemma_trackpad_press_never_plays(code: u16, rules: Seq<CompiledRule>, n_defaults: nat)
    ensures
        press_event(1, code, true, false) == Some(InputEvent::Ignored),
        route_of(rules, n_defaults, false, InputEvent::Ignored) == Route::Filtered,
        plays_of(rules, Route::Filtered) == 0,
{
}

/// A press on a device that is not a trackpad is always forwarded as the
/// code's key or button event, whether or not trackpads are enabled; a
/// trackpad press is forwarded the same way when trackpads are enabled, and
/// is `Ignored` only when they are not. Anything but a press (value 1) is
/// never forwarded, and a forwarded press is never `Ignored` except for that
/// disabled-trackpad case.
pub proof fn lemma_press_forwarding(value: i32, code: u16, is_trackpad: bool, enable_trackpads: bool)
    ensures
        press_event(1, code, false, enable_trackpads) == Some(key_code_event(code)),
        press_event(1, code, true, true) == Some(key_code_event(code)),
        press_event(1, code, true, false) == Some(InputEvent::Ignored),
        value != 1 ==> press_event(value, code, is_trackpad, enable_trackpads) is None,
        press_event(value, code, is_trackpad, enable_trackpads) == Some(InputEvent::Ignored) ==> (
        value == 1 && is_trackpad && !enable_trackpads),
{
}

/// An evdev key code outside the button range 0x110..=0x117 is the keyboard
/// key with that code; a code inside it is a mouse button, never a key.
pub proof fn lemma_key_codes(code: u16)
    ensures
        (code < 0x110 || code > 0x117) ==> key_code_event(code) == InputEvent::Key(code),
        (0x110 <= code && code <= 0x117) ==> key_code_event(code) is Mouse,
{
}

/// The result of `str::to_lowercase` on a string.
pub uninterp spec fn lowercase(s: Seq<char>) -> Seq<char>;

/// Calls `str::to_lowercase`; the contract names its result `lowercase`.
#[verifier::external_body]
fn to_lowercase(s: &str) -> (r: String)
    ensures
        r@ == lowercase(s@),
{
    s.to_lowercase()
}

/// `needle` occurs in `hay` starting at index `i`.
pub open spec fn occurs_at(hay: Seq<char>, needle: Seq<char>, i: int) -> bool {
    0 <= i && i + needle.len() <= hay.len() && hay.subrange(i, i + needle.len()) == needle
}

/// `needle` occurs somewhere in `hay`.
pub open spec fn has_substring(hay: Seq<char>, needle: Seq<char>) -> bool {
    exists|i: int| occurs_at(hay, needle, i)
}

pub open spec fn touchpad_word() -> Seq<char> {
    seq!['t', 'o', 'u', 'c', 'h', 'p', 'a', 'd']
}

pub open spec fn trackpad_word() -> Seq<char> {
    seq!['t', 'r', 'a', 'c', 'k', 'p', 'a', 'd']
}

fn find_substring(hay: &Vec<char>, needle: &Vec<char>) -> (r: bool)
    ensures
        r == has_substring(hay@, needle@),
{
    let n = hay.len();
    let m = needle.len();
    if m > n {
        assert(!has_substring(hay@, needle@));
        return false;
    }
    let mut i: usize = 0;
    while i <= n - m
        invariant
            n == hay@.len(),
            m == needle@.len(),
            m <= n,
            i <= n - m + 1,
            forall|k: int| 0 <= k < i ==> !occurs_at(hay@, needle@, k),
        decreases n - m + 1 - i,
    {
        let mut j: usize = 0;
        let mut same = true;
        while j < m
            invariant
                n == hay@.len(),
                m == needle@.len(),
                i + m <= n,
                j <= m,
                same == (forall|t: int| 0 <= t < j ==> hay@[i + t] == needle@[t]),
            decreases m - j,
        {
            if hay[i + j] != needle[j] {
                same = false;
            }
            j = j + 1;
        }
        if same {
            assert(hay@.subrange(i as int, i + m) =~= needle@);
            assert(occurs_at(hay@, needle@, i as int));
            return true;
        }
        proof {
            if occurs_at(hay@, needle@, i as int) {
                assert forall|t: int| 0 <= t < m implies hay@[i + t] == needle@[t] by {
                    assert(hay@.subrange(i as int, i + m)[t] == hay@[i + t]);
                }
            }
        }
        i = i + 1;
    }
    proof {
        assert forall|k: int| !occurs_at(hay@, needle@, k) by {
            if 0 <= k && k + m <= n {
                assert(k < i);
            }
        }
    }
    false
}

/// Whether an already lower-cased device name names a touchpad or trackpad.
pub fn names_trackpad(lowered: &str) -> (r: bool)
    ensures
        r == (has_substring(lowered@, touchpad_word()) || has_substring(lowered@, trackpad_word())),
{
    let cs = chars_of(lowered);
    let touchpad: Vec<char> = vec!['t', 'o', 'u', 'c', 'h', 'p', 'a', 'd'];
    let trackpad: Vec<char> = vec!['t', 'r', 'a', 'c', 'k', 'p', 'a', 'd'];
    assert(touchpad@ =~= touchpad_word());
    assert(trackpad@ =~= trackpad_word());
    find_substring(&cs, &touchpad) || find_substring(&cs, &trackpad)
}

/// A device whose name, lower-cased, contains "touchpad" or "trackpad" is a
/// trackpad; a device without a name is not.
pub fn is_trackpad_name(name: Option<&str>) -> (r: bool)
    ensures
        r == match name {
            Some(n) => has_substring(lowercase(n@), touchpad_word()) || has_substring(
                lowercase(n@),
                trackpad_word(),
            ),
            None => false,
        },
{
    match name {
        Some(n) => {
            let lowered = to_lowercase(n);
            names_trackpad(lowered.as_str())
        },
        None => false,
    }
}

} // verus!
