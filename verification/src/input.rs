//! What the keyboard and input-method adapters decide: which key a platform
//! code stands for, and what each event does to the input-method flags.

use crate::text::{contains, occurs, same_bytes};
use vstd::prelude::*;
use vstd::string::StringSliceAdditionalSpecFns;

verus! {

/// The key that switches to alphanumeric entry.
pub const VK_DBE_ALPHANUMERIC: u32 = 0xF0;

/// The key that switches to katakana.
pub const VK_DBE_KATAKANA: u32 = 0xF1;

/// The key that switches to hiragana.
pub const VK_DBE_HIRAGANA: u32 = 0xF2;

/// The key that switches to single-byte characters.
pub const VK_DBE_SBCSCHAR: u32 = 0xF3;

/// The key that switches to double-byte characters.
pub const VK_DBE_DBCSCHAR: u32 = 0xF4;

/// The key that toggles between half-width and full-width entry.
pub const VK_KANJI: u32 = 0x19;

/// Window message: a key went down.
pub const WM_KEYDOWN: u32 = 0x0100;

/// Window message: a key went up.
pub const WM_KEYUP: u32 = 0x0101;

/// Window message: a system key went down.
pub const WM_SYSKEYDOWN: u32 = 0x0104;

/// Window message: a system key went up.
pub const WM_SYSKEYUP: u32 = 0x0105;

/// Accessibility event: the composition string changed.
pub const EVENT_OBJECT_IME_CHANGE: u32 = 0x8016;

/// Accessibility event: the input-method window is shown.
pub const EVENT_OBJECT_IME_SHOW: u32 = 0x8017;

/// Accessibility event: the input-method window is hidden.
pub const EVENT_OBJECT_IME_HIDE: u32 = 0x8018;

/// The virtual-key code that the macOS key code `mac_vk` stands for. Codes
/// without an entry pass through, cut to 32 bits.
pub open spec fn vk_of_mac(mac_vk: u64) -> u32 {
    match mac_vk {
        // letters
        0x00 => 0x41,
        0x0B => 0x42,
        0x08 => 0x43,
        0x02 => 0x44,
        0x0E => 0x45,
        0x03 => 0x46,
        0x05 => 0x47,
        0x04 => 0x48,
        0x22 => 0x49,
        0x26 => 0x4A,
        0x28 => 0x4B,
        0x25 => 0x4C,
        0x2E => 0x4D,
        0x2D => 0x4E,
        0x1F => 0x4F,
        0x23 => 0x50,
        0x0C => 0x51,
        0x0F => 0x52,
        0x01 => 0x53,
        0x11 => 0x54,
        0x20 => 0x55,
        0x09 => 0x56,
        0x0D => 0x57,
        0x07 => 0x58,
        0x10 => 0x59,
        0x06 => 0x5A,
        // digits
        0x12 => 0x31,
        0x13 => 0x32,
        0x14 => 0x33,
        0x15 => 0x34,
        0x17 => 0x35,
        0x16 => 0x36,
        0x1A => 0x37,
        0x1C => 0x38,
        0x19 => 0x39,
        0x1D => 0x30,
        // Backspace and forward Delete
        0x33 => 0x08,
        0x75 => 0x2E,
        // Return, Tab, Space, Escape
        0x24 => 0x0D,
        0x30 => 0x09,
        0x31 => 0x20,
        0x35 => 0x1B,
        // arrows: left, right, down, up
        0x7B => 0x25,
        0x7C => 0x27,
        0x7D => 0x28,
        0x7E => 0x26,
        // F1 to F12
        0x7A => 0x70,
        0x78 => 0x71,
        0x63 => 0x72,
        0x76 => 0x73,
        0x60 => 0x74,
        0x61 => 0x75,
        0x62 => 0x76,
        0x64 => 0x77,
        0x65 => 0x78,
        0x6D => 0x79,
        0x67 => 0x7A,
        0x6F => 0x7B,
        // the input-method keys of JIS keyboards
        0x66 => VK_DBE_ALPHANUMERIC,
        0x68 => VK_KANJI,
        0x90 => VK_DBE_HIRAGANA,
        0x91 => VK_DBE_KATAKANA,
        other => (other % 0x1_0000_0000) as u32,
    }
}

/// The virtual-key code that the macOS key code `mac_vk` stands for.
pub fn macos_vk_to_vk(mac_vk: u64) -> (vk: u32)
    ensures
        vk == vk_of_mac(mac_vk),
{
    match mac_vk {
        0x00 => 0x41,
        0x0B => 0x42,
        0x08 => 0x43,
        0x02 => 0x44,
        0x0E => 0x45,
        0x03 => 0x46,
        0x05 => 0x47,
        0x04 => 0x48,
        0x22 => 0x49,
        0x26 => 0x4A,
        0x28 => 0x4B,
        0x25 => 0x4C,
        0x2E => 0x4D,
        0x2D => 0x4E,
        0x1F => 0x4F,
        0x23 => 0x50,
        0x0C => 0x51,
        0x0F => 0x52,
        0x01 => 0x53,
        0x11 => 0x54,
        0x20 => 0x55,
        0x09 => 0x56,
        0x0D => 0x57,
        0x07 => 0x58,
        0x10 => 0x59,
        0x06 => 0x5A,
        0x12 => 0x31,
        0x13 => 0x32,
        0x14 => 0x33,
        0x15 => 0x34,
        0x17 => 0x35,
        0x16 => 0x36,
        0x1A => 0x37,
        0x1C => 0x38,
        0x19 => 0x39,
        0x1D => 0x30,
        0x33 => 0x08,
        0x75 => 0x2E,
        0x24 => 0x0D,
        0x30 => 0x09,
        0x31 => 0x20,
        0x35 => 0x1B,
        0x7B => 0x25,
        0x7C => 0x27,
        0x7D => 0x28,
        0x7E => 0x26,
        0x7A => 0x70,
        0x78 => 0x71,
        0x63 => 0x72,
        0x76 => 0x73,
        0x60 => 0x74,
        0x61 => 0x75,
        0x62 => 0x76,
        0x64 => 0x77,
        0x65 => 0x78,
        0x6D => 0x79,
        0x67 => 0x7A,
        0x6F => 0x7B,
        0x66 => VK_DBE_ALPHANUMERIC,
        0x68 => VK_KANJI,
        0x90 => VK_DBE_HIRAGANA,
        0x91 => VK_DBE_KATAKANA,
        other => (other % 0x1_0000_0000) as u32,
    }
}

/// Which way a key moved.
#[derive(Debug, Clone, Copy, PartialEq, Eq, Structural)]
pub enum KeyEdge {
    Press,
    Release,
}

/// What the window message `message` says of a key: that it went down, that
/// it went up, or nothing.
pub open spec fn edge_of_message(message: u32) -> Option<KeyEdge> {
    if message == WM_KEYDOWN || message == WM_SYSKEYDOWN {
        Some(KeyEdge::Press)
    } else if message == WM_KEYUP || message == WM_SYSKEYUP {
        Some(KeyEdge::Release)
    } else {
        None
    }
}

/// What the window message `message` says of a key.
pub fn classify_key_message(message: u32) -> (edge: Option<KeyEdge>)
    ensures
        edge == edge_of_message(message),
{
    if message == WM_KEYDOWN || message == WM_SYSKEYDOWN {
        Some(KeyEdge::Press)
    } else if message == WM_KEYUP || message == WM_SYSKEYUP {
        Some(KeyEdge::Release)
    } else {
        None
    }
}

/// Whether the key switches to composition mode.
pub open spec fn opens_ime(vk_code: u32) -> bool {
    vk_code == VK_DBE_KATAKANA || vk_code == VK_DBE_HIRAGANA || vk_code == VK_DBE_DBCSCHAR
}

/// Whether the key switches to direct entry.
pub open spec fn closes_ime(vk_code: u32) -> bool {
    vk_code == VK_DBE_ALPHANUMERIC || vk_code == VK_DBE_SBCSCHAR
}

/// Whether the key is one of the input-method mode keys.
pub open spec fn is_ime_mode_key_spec(vk_code: u32) -> bool {
    opens_ime(vk_code) || closes_ime(vk_code) || vk_code == VK_KANJI
}

/// Whether the key is one of the input-method mode keys.
#[verifier::when_used_as_spec(is_ime_mode_key_spec)]
pub fn is_ime_mode_key(vk_code: u32) -> (is: bool)
    ensures
        is == is_ime_mode_key_spec(vk_code),
{
    vk_code == VK_DBE_ALPHANUMERIC || vk_code == VK_DBE_KATAKANA || vk_code == VK_DBE_HIRAGANA
        || vk_code == VK_DBE_SBCSCHAR || vk_code == VK_DBE_DBCSCHAR || vk_code == VK_KANJI
}

/// What is known of the input method.
#[derive(Debug, Clone, Copy, PartialEq, Eq, Structural)]
pub struct ImeFlags {
    /// A composition is under way in the foreground application.
    pub active: bool,
    /// The input method is in composition mode, not direct entry.
    pub open: bool,
    /// The mode changed since it was last reported.
    pub dirty: bool,
    /// A mode key of a JIS keyboard was pressed.
    pub jis_keyboard_seen: bool,
}

/// The flags after a key moved. The mode keys set the mode on press and on
/// release, but the toggle key only on press.
pub open spec fn flags_after_key(flags: ImeFlags, vk_code: u32, edge: KeyEdge) -> ImeFlags {
    let pressed = edge == KeyEdge::Press;
    if closes_ime(vk_code) {
        ImeFlags {
            open: false,
            dirty: true,
            jis_keyboard_seen: flags.jis_keyboard_seen || pressed,
            ..flags
        }
    } else if opens_ime(vk_code) {
        ImeFlags {
            open: true,
            dirty: true,
            jis_keyboard_seen: flags.jis_keyboard_seen || pressed,
            ..flags
        }
    } else if vk_code == VK_KANJI && pressed {
        ImeFlags { open: !flags.open, dirty: true, jis_keyboard_seen: true, ..flags }
    } else {
        flags
    }
}

/// Whether the poller is woken after a key moved: on every press, and on the
/// release of a mode key.
pub open spec fn wakes_poller(vk_code: u32, edge: KeyEdge) -> bool {
    edge == KeyEdge::Press || is_ime_mode_key_spec(vk_code)
}

/// The flags after an accessibility event of the input method: a composition
/// that starts or changes shows that the input method is in composition
/// mode; one that is hidden has ended.
pub open spec fn flags_after_ime_event(flags: ImeFlags, event: u32) -> ImeFlags {
    if event == EVENT_OBJECT_IME_SHOW || event == EVENT_OBJECT_IME_CHANGE {
        ImeFlags { active: true, open: true, dirty: true, ..flags }
    } else if event == EVENT_OBJECT_IME_HIDE {
        ImeFlags { active: false, ..flags }
    } else {
        flags
    }
}

/// Whether a candidate window counts as open: one is visible, or the focus
/// is on the input method. What the accessibility events said does not count
/// without either.
pub open spec fn candidate_open(window_visible: bool, focus_on_ime: bool) -> bool {
    window_visible || focus_on_ime
}

/// What the poller does with what it sees.
#[derive(Debug, Clone, Copy, PartialEq, Eq, Structural)]
pub struct PollOutcome {
    /// The mode that was last reported.
    pub last_state: Option<bool>,
    /// The mode to report now, if any.
    pub report: Option<bool>,
}

/// The outcome of one poll. `observed` is the mode that the input method
/// itself gave, if it could be asked; where it could not, the mode keys
/// decide, once, when they said something new.
pub open spec fn poll_outcome(flags: ImeFlags, last_state: Option<bool>, observed: Option<bool>)
    -> PollOutcome {
    let current = match observed {
        Some(mode) => Some(mode),
        None => if flags.dirty {
            Some(flags.open)
        } else {
            None
        },
    };
    match current {
        Some(mode) => if last_state != Some(mode) {
            PollOutcome { last_state: Some(mode), report: Some(mode) }
        } else {
            PollOutcome { last_state, report: None }
        },
        None => PollOutcome { last_state, report: None },
    }
}

/// The flags after one poll: a mode that the input method gave and that is
/// reported is taken over; where it could not be asked, the news of the mode
/// keys is used up.
pub open spec fn flags_after_poll(flags: ImeFlags, last_state: Option<bool>, observed: Option<bool>)
    -> ImeFlags {
    match observed {
        Some(mode) => if last_state != Some(mode) {
            ImeFlags { open: mode, ..flags }
        } else {
            flags
        },
        None => ImeFlags { dirty: false, ..flags },
    }
}

impl ImeFlags {
    /// Nothing is known yet: no composition, direct entry.
    pub fn new() -> (flags: Self)
        ensures
            flags == (ImeFlags {
                active: false,
                open: false,
                dirty: false,
                jis_keyboard_seen: false,
            }),
    {
        ImeFlags { active: false, open: false, dirty: false, jis_keyboard_seen: false }
    }

    /// Takes in that a key moved. Returns whether the poller is to be woken.
    pub fn on_key(&mut self, vk_code: u32, edge: KeyEdge) -> (wake: bool)
        ensures
            *final(self) == flags_after_key(*old(self), vk_code, edge),
            wake == wakes_poller(vk_code, edge),
    {
        let pressed = match edge {
            KeyEdge::Press => true,
            KeyEdge::Release => false,
        };
        if vk_code == VK_DBE_ALPHANUMERIC || vk_code == VK_DBE_SBCSCHAR {
            if pressed {
                self.jis_keyboard_seen = true;
            }
            self.open = false;
            self.dirty = true;
        } else if vk_code == VK_DBE_KATAKANA || vk_code == VK_DBE_HIRAGANA || vk_code
            == VK_DBE_DBCSCHAR {
            if pressed {
                self.jis_keyboard_seen = true;
            }
            self.open = true;
            self.dirty = true;
        } else if vk_code == VK_KANJI && pressed {
            self.jis_keyboard_seen = true;
            self.open = !self.open;
            self.dirty = true;
        }
        pressed || is_ime_mode_key(vk_code)
    }

    /// Takes in an accessibility event of the input method. Returns whether
    /// the poller is to be woken.
    pub fn on_ime_event(&mut self, event: u32) -> (wake: bool)
        ensures
            *final(self) == flags_after_ime_event(*old(self), event),
            wake == (event == EVENT_OBJECT_IME_SHOW || event == EVENT_OBJECT_IME_CHANGE),
    {
        if event == EVENT_OBJECT_IME_SHOW || event == EVENT_OBJECT_IME_CHANGE {
            self.active = true;
            self.open = true;
            self.dirty = true;
            true
        } else {
            if event == EVENT_OBJECT_IME_HIDE {
                self.active = false;
            }
            false
        }
    }

    /// Whether a candidate window is open. Where the accessibility events
    /// say so but neither a visible window nor the focus confirms it, the
    /// events are taken to be stale and forgotten.
    pub fn is_candidate_window_open(&mut self, window_visible: bool, focus_on_ime: bool) -> (open:
        bool)
        ensures
            open == candidate_open(window_visible, focus_on_ime),
            *final(self) == (ImeFlags {
                active: old(self).active && candidate_open(window_visible, focus_on_ime),
                ..*old(self)
            }),
    {
        if self.active && !window_visible && !focus_on_ime {
            self.active = false;
            return false;
        }
        self.active || window_visible || focus_on_ime
    }

    /// One poll of the mode. `last_state` is the mode that was last
    /// reported, `observed` the mode that the input method itself gave, if
    /// it could be asked.
    pub fn poll(&mut self, last_state: Option<bool>, observed: Option<bool>) -> (outcome:
        PollOutcome)
        ensures
            outcome == poll_outcome(*old(self), last_state, observed),
            *final(self) == flags_after_poll(*old(self), last_state, observed),
    {
        let reported = match last_state {
            Some(mode) => Some(mode),
            None => None,
        };
        match observed {
            Some(mode) => {
                if differs(last_state, mode) {
                    self.open = mode;
                    PollOutcome { last_state: Some(mode), report: Some(mode) }
                } else {
                    PollOutcome { last_state: reported, report: None }
                }
            },
            None => {
                let news = self.dirty;
                self.dirty = false;
                if news && differs(last_state, self.open) {
                    PollOutcome { last_state: Some(self.open), report: Some(self.open) }
                } else {
                    PollOutcome { last_state: reported, report: None }
                }
            },
        }
    }
}

/// Whether `mode` is news after `last_state`.
fn differs(last_state: Option<bool>, mode: bool) -> (news: bool)
    ensures
        news == (last_state != Some(mode)),
{
    match last_state {
        Some(previous) => previous != mode,
        None => true,
    }
}

/// Whether a composition is under way in the foreground application.
pub fn is_ime_active(flags: &ImeFlags) -> (active: bool)
    ensures
        active == flags.active,
{
    flags.active
}

/// Whether the input method is in composition mode.
pub fn is_ime_open(flags: &ImeFlags) -> (open: bool)
    ensures
        open == flags.open,
{
    flags.open
}

/// Whether a composition is under way, as an adapter without any means to
/// tell answers: never.
pub fn is_ime_active_check() -> (active: bool)
    ensures
        !active,
{
    false
}

/// Whether a window of class `class` is a candidate window of an input
/// method: the class is `IME` or has `Candidate` in its name.
pub open spec fn is_candidate_class(class: Seq<u8>) -> bool {
    occurs(class, "CandidateUI".spec_bytes()) || class == "IME".spec_bytes() || occurs(
        class,
        "Candidate".spec_bytes(),
    )
}

/// Whether a window of class `class` is a candidate window of an input
/// method.
pub fn is_ime_candidate_class(class: &[u8]) -> (is: bool)
    ensures
        is == is_candidate_class(class@),
{
    contains(class, "CandidateUI".as_bytes()) || same_bytes(class, "IME".as_bytes()) || contains(
        class,
        "Candidate".as_bytes(),
    )
}

/// Whether the element with the focus, of class `class` and name `name`,
/// belongs to an input method.
pub open spec fn is_ime_element(class: Option<Seq<u8>>, name: Option<Seq<u8>>) -> bool {
    ||| class matches Some(c) && (occurs(c, "Candidate".spec_bytes()) || occurs(
        c,
        "Ime".spec_bytes(),
    ))
    ||| name matches Some(n) && occurs(n, "候補".spec_bytes())
}

/// Whether the element with the focus belongs to an input method.
pub fn is_ime_focus(class: Option<&[u8]>, name: Option<&[u8]>) -> (is: bool)
    ensures
        is == is_ime_element(
            match class {
                Some(c) => Some(c@),
                None => None,
            },
            match name {
                Some(n) => Some(n@),
                None => None,
            },
        ),
{
    let by_class = match class {
        Some(c) => contains(c, "Candidate".as_bytes()) || contains(c, "Ime".as_bytes()),
        None => false,
    };
    if by_class {
        return true;
    }
    match name {
        Some(n) => contains(n, "候補".as_bytes()),
        None => false,
    }
}

/// Whether the input source with identifier `id` is a Japanese input
/// method.
pub fn is_japanese_input_source(id: &[u8]) -> (is: bool)
    ensures
        is == occurs(id@, "inputmethod.Japanese".spec_bytes()),
{
    contains(id, "inputmethod.Japanese".as_bytes())
}

} // verus!
