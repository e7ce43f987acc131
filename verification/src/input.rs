//! Input forwarded to the windowless browser: modifier and mouse-button state,
//! click counting, CEF event flags and Windows virtual-key codes.
use vstd::prelude::*;

verus! {

/// Keyboard modifiers and pressed mouse buttons at the time of an event.
#[derive(Clone, Copy, Debug, PartialEq, Eq, Structural)]
pub struct InputModifiers {
    pub shift: bool,
    pub control: bool,
    pub alt: bool,
    pub meta: bool,
    pub left_mouse: bool,
    pub middle_mouse: bool,
    pub right_mouse: bool,
}

impl InputModifiers {
    pub open spec fn spec_none() -> Self {
        InputModifiers {
            shift: false,
            control: false,
            alt: false,
            meta: false,
            left_mouse: false,
            middle_mouse: false,
            right_mouse: false,
        }
    }
}

impl Default for InputModifiers {
    fn default() -> (m: Self)
        ensures
            m == InputModifiers::spec_none(),
    {
        InputModifiers {
            shift: false,
            control: false,
            alt: false,
            meta: false,
            left_mouse: false,
            middle_mouse: false,
            right_mouse: false,
        }
    }
}

/// Where on the keyboard a key sits.
#[derive(Clone, Copy, Debug, PartialEq, Eq, Structural)]
pub enum KeyLocation {
    Left,
    Right,
    Numpad,
    Standard,
}

impl Default for KeyLocation {
    fn default() -> (l: Self)
        ensures
            l == KeyLocation::Standard,
    {
        KeyLocation::Standard
    }
}

#[derive(Clone, Copy, Debug, PartialEq, Eq, Structural)]
pub enum ButtonState {
    Pressed,
    Released,
}

#[derive(Clone, Copy, Debug, PartialEq, Eq, Structural)]
pub enum KeyState {
    Pressed,
    Released,
}

#[derive(Clone, Copy, Debug, PartialEq, Eq, Structural)]
pub enum MouseButton {
    Left,
    Right,
    Middle,
    Back,
    Forward,
    Other(u16),
}

/// Named (non-character) keys that have a Windows virtual-key code or act as modifiers.
#[derive(Clone, Copy, Debug, PartialEq, Eq, Structural)]
pub enum NamedKey {
    Alt,
    AltGraph,
    CapsLock,
    Control,
    NumLock,
    ScrollLock,
    Shift,
    Meta,
    Super,
    Hyper,
    Enter,
    Tab,
    ArrowLeft,
    ArrowUp,
    ArrowRight,
    ArrowDown,
    End,
    Home,
    PageDown,
    PageUp,
    Backspace,
    Delete,
    Insert,
    ContextMenu,
    Escape,
    Pause,
    PrintScreen,
    AudioVolumeDown,
    AudioVolumeUp,
    AudioVolumeMute,
    BrowserBack,
    BrowserFavorites,
    BrowserForward,
    BrowserHome,
    BrowserRefresh,
    BrowserSearch,
    BrowserStop,
    F1,
    F2,
    F3,
    F4,
    F5,
    F6,
    F7,
    F8,
    F9,
    F10,
    F11,
    F12,
    Other,
}

/// The logical value of a key press.
#[derive(Clone, Debug, PartialEq, Eq)]
pub enum KeyValue {
    Named(NamedKey),
    /// The text the key produces; only its first character matters here.
    Character(String),
    Unidentified,
}

/// The Windows virtual-key code of a named key, zero when it has none.
pub open spec fn spec_named_virtual_key(key: NamedKey) -> i32 {
    match key {
        NamedKey::Alt => 0x12,
        NamedKey::AltGraph => 0xA5,
        NamedKey::CapsLock => 0x14,
        NamedKey::Control => 0x11,
        NamedKey::NumLock => 0x90,
        NamedKey::ScrollLock => 0x91,
        NamedKey::Shift => 0x10,
        NamedKey::Meta => 0x5B,
        NamedKey::Enter => 0x0D,
        NamedKey::Tab => 0x09,
        NamedKey::ArrowLeft => 0x25,
        NamedKey::ArrowUp => 0x26,
        NamedKey::ArrowRight => 0x27,
        NamedKey::ArrowDown => 0x28,
        NamedKey::End => 0x23,
        NamedKey::Home => 0x24,
        NamedKey::PageDown => 0x22,
        NamedKey::PageUp => 0x21,
        NamedKey::Backspace => 0x08,
        NamedKey::Delete => 0x2E,
        NamedKey::Insert => 0x2D,
        NamedKey::ContextMenu => 0x5D,
        NamedKey::Escape => 0x1B,
        NamedKey::Pause => 0x13,
        NamedKey::PrintScreen => 0x2C,
        NamedKey::AudioVolumeDown => 0xAE,
        NamedKey::AudioVolumeUp => 0xAF,
        NamedKey::AudioVolumeMute => 0xAD,
        NamedKey::BrowserBack => 0xA6,
        NamedKey::BrowserFavorites => 0xAB,
        NamedKey::BrowserForward => 0xA7,
        NamedKey::BrowserHome => 0xAC,
        NamedKey::BrowserRefresh => 0xA8,
        NamedKey::BrowserSearch => 0xAA,
        NamedKey::BrowserStop => 0xA9,
        NamedKey::F1 => 0x70,
        NamedKey::F2 => 0x71,
        NamedKey::F3 => 0x72,
        NamedKey::F4 => 0x73,
        NamedKey::F5 => 0x74,
        NamedKey::F6 => 0x75,
        NamedKey::F7 => 0x76,
        NamedKey::F8 => 0x77,
        NamedKey::F9 => 0x78,
        NamedKey::F10 => 0x79,
        NamedKey::F11 => 0x7A,
        NamedKey::F12 => 0x7B,
        _ => 0,
    }
}

/// The Windows virtual-key code of the key that types `c` on a US layout, zero
/// when there is none: letters map to their upper-case code, shifted punctuation
/// to the key that carries it.
pub open spec fn spec_character_virtual_key(c: char) -> i32 {
    if 'a' <= c && c <= 'z' {
        (c as u32 - 32) as i32
    } else if ('A' <= c && c <= 'Z') || ('0' <= c && c <= '9') {
        c as u32 as i32
    } else if c == '!' {
        0x31
    } else if c == '@' {
        0x32
    } else if c == '#' {
        0x33
    } else if c == '$' {
        0x34
    } else if c == '%' {
        0x35
    } else if c == '^' {
        0x36
    } else if c == '&' {
        0x37
    } else if c == '*' {
        0x38
    } else if c == '(' {
        0x39
    } else if c == ')' {
        0x30
    } else if c == '`' || c == '~' {
        0xC0
    } else if c == '-' || c == '_' {
        0xBD
    } else if c == '=' || c == '+' {
        0xBB
    } else if c == '[' || c == '{' {
        0xDB
    } else if c == ']' || c == '}' {
        0xDD
    } else if c == '\\' || c == '|' {
        0xDC
    } else if c == ';' || c == ':' {
        0xBA
    } else if c == ',' || c == '<' {
        0xBC
    } else if c == '.' || c == '>' {
        0xBE
    } else if c == '\'' || c == '"' {
        0xDE
    } else if c == '/' || c == '?' {
        0xBF
    } else if c == ' ' {
        0x20
    } else {
        0
    }
}

/// The first UTF-16 code unit of `c`.
pub open spec fn first_utf16_unit(c: char) -> u16 {
    let v = c as u32;
    if v < 0x10000 {
        v as u16
    } else {
        (0xD800 + ((v - 0x10000) / 1024)) as u16
    }
}

/// The Windows virtual-key code of a key value.
pub open spec fn spec_virtual_key_code(key: KeyValue) -> i32 {
    match key {
        KeyValue::Named(k) => spec_named_virtual_key(k),
        KeyValue::Character(text) => if text@.len() > 0 {
            spec_character_virtual_key(text@[0])
        } else {
            0
        },
        KeyValue::Unidentified => 0,
    }
}

/// The character code CEF expects for a key value.
pub open spec fn spec_character(key: KeyValue) -> u16 {
    match key {
        KeyValue::Named(NamedKey::Tab) => 9,
        KeyValue::Named(NamedKey::Enter) => 13,
        KeyValue::Named(NamedKey::Backspace) => 8,
        KeyValue::Named(NamedKey::Escape) => 0x1B,
        KeyValue::Character(text) => if text@.len() > 0 {
            first_utf16_unit(text@[0])
        } else {
            0
        },
        _ => 0,
    }
}

/// The Windows virtual-key code of a named key, zero when it has none.
pub fn named_virtual_key(key: NamedKey) -> (code: i32)
    ensures
        code == spec_named_virtual_key(key),
{
    match key {
        NamedKey::Alt => 0x12,
        NamedKey::AltGraph => 0xA5,
        NamedKey::CapsLock => 0x14,
        NamedKey::Control => 0x11,
        NamedKey::NumLock => 0x90,
        NamedKey::ScrollLock => 0x91,
        NamedKey::Shift => 0x10,
        NamedKey::Meta => 0x5B,
        NamedKey::Enter => 0x0D,
        NamedKey::Tab => 0x09,
        NamedKey::ArrowLeft => 0x25,
        NamedKey::ArrowUp => 0x26,
        NamedKey::ArrowRight => 0x27,
        NamedKey::ArrowDown => 0x28,
        NamedKey::End => 0x23,
        NamedKey::Home => 0x24,
        NamedKey::PageDown => 0x22,
        NamedKey::PageUp => 0x21,
        NamedKey::Backspace => 0x08,
        NamedKey::Delete => 0x2E,
        NamedKey::Insert => 0x2D,
        NamedKey::ContextMenu => 0x5D,
        NamedKey::Escape => 0x1B,
        NamedKey::Pause => 0x13,
        NamedKey::PrintScreen => 0x2C,
        NamedKey::AudioVolumeDown => 0xAE,
        NamedKey::AudioVolumeUp => 0xAF,
        NamedKey::AudioVolumeMute => 0xAD,
        NamedKey::BrowserBack => 0xA6,
        NamedKey::BrowserFavorites => 0xAB,
        NamedKey::BrowserForward => 0xA7,
        NamedKey::BrowserHome => 0xAC,
        NamedKey::BrowserRefresh => 0xA8,
        NamedKey::BrowserSearch => 0xAA,
        NamedKey::BrowserStop => 0xA9,
        NamedKey::F1 => 0x70,
        NamedKey::F2 => 0x71,
        NamedKey::F3 => 0x72,
        NamedKey::F4 => 0x73,
        NamedKey::F5 => 0x74,
        NamedKey::F6 => 0x75,
        NamedKey::F7 => 0x76,
        NamedKey::F8 => 0x77,
        NamedKey::F9 => 0x78,
        NamedKey::F10 => 0x79,
        NamedKey::F11 => 0x7A,
        NamedKey::F12 => 0x7B,
        _ => 0,
    }
}

/// The Windows virtual-key code of the key that types `c`.
pub fn character_virtual_key(c: char) -> (code: i32)
    ensures
        code == spec_character_virtual_key(c),
{
    if 'a' <= c && c <= 'z' {
        (c as u32 - 32) as i32
    } else if ('A' <= c && c <= 'Z') || ('0' <= c && c <= '9') {
        c as u32 as i32
    } else if c == '!' {
        0x31
    } else if c == '@' {
        0x32
    } else if c == '#' {
        0x33
    } else if c == '$' {
        0x34
    } else if c == '%' {
        0x35
    } else if c == '^' {
        0x36
    } else if c == '&' {
        0x37
    } else if c == '*' {
        0x38
    } else if c == '(' {
        0x39
    } else if c == ')' {
        0x30
    } else if c == '`' || c == '~' {
        0xC0
    } else if c == '-' || c == '_' {
        0xBD
    } else if c == '=' || c == '+' {
        0xBB
    } else if c == '[' || c == '{' {
        0xDB
    } else if c == ']' || c == '}' {
        0xDD
    } else if c == '\\' || c == '|' {
        0xDC
    } else if c == ';' || c == ':' {
        0xBA
    } else if c == ',' || c == '<' {
        0xBC
    } else if c == '.' || c == '>' {
        0xBE
    } else if c == '\'' || c == '"' {
        0xDE
    } else if c == '/' || c == '?' {
        0xBF
    } else if c == ' ' {
        0x20
    } else {
        0
    }
}

/// The first character of a string, if any.
fn first_char(text: &String) -> (c: Option<char>)
    ensures
        text@.len() > 0 ==> c == Some(text@[0]),
        text@.len() == 0 ==> c is None,
{
    let mut result: Option<char> = None;
    for ch in it: text.as_str().chars()
        invariant
            it.seq() == text@,
            it.index() == 0 ==> result is None,
            it.index() > 0 ==> result == Some(text@[0]),
    {
        if result.is_none() {
            result = Some(ch);
        }
    }
    result
}

/// The Windows virtual-key code of a key value.
pub fn virtual_key_code(key: &KeyValue) -> (code: i32)
    ensures
        code == spec_virtual_key_code(*key),
{
    match key {
        KeyValue::Named(k) => named_virtual_key(*k),
        KeyValue::Character(text) => match first_char(text) {
            Some(c) => character_virtual_key(c),
            None => 0,
        },
        KeyValue::Unidentified => 0,
    }
}

/// The character code CEF expects for a key value.
pub fn character(key: &KeyValue) -> (code: u16)
    ensures
        code == spec_character(*key),
{
    match key {
        KeyValue::Named(NamedKey::Tab) => 9,
        KeyValue::Named(NamedKey::Enter) => 13,
        KeyValue::Named(NamedKey::Backspace) => 8,
        KeyValue::Named(NamedKey::Escape) => 0x1B,
        KeyValue::Character(text) => match first_char(text) {
            Some(c) => {
                let v = c as u32;
                if v < 0x10000 {
                    v as u16
                } else {
                    (0xD800 + (v - 0x10000) / 1024) as u16
                }
            },
            None => 0,
        },
        _ => 0,
    }
}

/// `value` when `set`, zero otherwise.
pub open spec fn flag(set: bool, value: u32) -> u32 {
    if set {
        value
    } else {
        0
    }
}

/// The CEF flag of a key location.
pub open spec fn location_flag(location: KeyLocation) -> u32 {
    match location {
        KeyLocation::Left => 1024,
        KeyLocation::Right => 2048,
        KeyLocation::Numpad => 512,
        KeyLocation::Standard => 0,
    }
}

/// CEF event flags for the given modifiers, key repeat and key location.
pub open spec fn spec_cef_modifiers(
    modifiers: InputModifiers,
    repeat: bool,
    location: KeyLocation,
) -> u32 {
    (flag(modifiers.shift, 2) + flag(modifiers.control, 4) + flag(modifiers.alt, 8) + flag(
        modifiers.meta,
        128,
    ) + flag(modifiers.left_mouse, 16) + flag(modifiers.middle_mouse, 32) + flag(
        modifiers.right_mouse,
        64,
    ) + flag(repeat, 8192) + location_flag(location)) as u32
}

fn flag_value(set: bool, value: u32) -> (r: u32)
    ensures
        r == flag(set, value),
{
    if set {
        value
    } else {
        0
    }
}

/// CEF event flags: shift 1<<1, control 1<<2, alt 1<<3, left/middle/right mouse
/// 1<<4..1<<6, meta 1<<7, numpad 1<<9, left 1<<10, right 1<<11, repeat 1<<13.
pub fn cef_modifiers(modifiers: InputModifiers, repeat: bool, location: KeyLocation) -> (flags:
    u32)
    ensures
        flags == spec_cef_modifiers(modifiers, repeat, location),
{
    let a = flag_value(modifiers.shift, 2);
    let b = flag_value(modifiers.control, 4);
    let c = flag_value(modifiers.alt, 8);
    let d = flag_value(modifiers.meta, 128);
    let e = flag_value(modifiers.left_mouse, 16);
    let f = flag_value(modifiers.middle_mouse, 32);
    let g = flag_value(modifiers.right_mouse, 64);
    let h = flag_value(repeat, 8192);
    let l: u32 = match location {
        KeyLocation::Left => 1024,
        KeyLocation::Right => 2048,
        KeyLocation::Numpad => 512,
        KeyLocation::Standard => 0,
    };
    a + b + c + d + e + f + g + h + l
}

/// Longest pause between the clicks of one multi-click, in milliseconds.
pub const CLICK_INTERVAL_MS: u64 = 500;

/// The last press that click counting remembers.
#[derive(Clone, Copy, Debug, PartialEq, Eq, Structural)]
pub struct Click {
    pub button: MouseButton,
    pub count: u8,
}

/// The click count a press yields after `last`: a press of the same button that
/// follows within the click interval and near the previous press continues the
/// sequence 1, 2, 3, 2, 3, ...; anything else starts again at one.
pub open spec fn next_click_count(
    last: Option<Click>,
    button: MouseButton,
    elapsed_ms: u64,
    near: bool,
) -> u8 {
    match last {
        None => 1,
        Some(click) => if click.button == button && elapsed_ms <= CLICK_INTERVAL_MS && near {
            if click.count == 1 {
                2
            } else if click.count == 2 {
                3
            } else {
                2
            }
        } else {
            1
        },
    }
}

/// Input state the runtime keeps between window events.
pub struct InputState {
    pub modifiers: InputModifiers,
    pub last_click: Option<Click>,
}

impl InputState {
    /// No modifier held and no click remembered.
    pub fn new() -> (s: Self)
        ensures
            s.modifiers == InputModifiers::spec_none(),
            s.last_click is None,
    {
        InputState { modifiers: InputModifiers::default(), last_click: None }
    }

    /// Takes the keyboard modifier state the window reports.
    pub fn apply_keyboard_modifiers(&mut self, shift: bool, control: bool, alt: bool, meta: bool)
        ensures
            final(self).modifiers == (InputModifiers {
                shift,
                control,
                alt,
                meta,
                ..old(self).modifiers
            }),
            final(self).last_click == old(self).last_click,
    {
        self.modifiers.shift = shift;
        self.modifiers.control = control;
        self.modifiers.alt = alt;
        self.modifiers.meta = meta;
    }

    /// Follows a modifier key press or release.
    pub fn apply_modifier_key(&mut self, key: &KeyValue, state: KeyState)
        ensures
            final(self).last_click == old(self).last_click,
            final(self).modifiers == (match *key {
                KeyValue::Named(NamedKey::Shift) => InputModifiers {
                    shift: state == KeyState::Pressed,
                    ..old(self).modifiers
                },
                KeyValue::Named(NamedKey::Control) => InputModifiers {
                    control: state == KeyState::Pressed,
                    ..old(self).modifiers
                },
                KeyValue::Named(NamedKey::Alt) | KeyValue::Named(NamedKey::AltGraph) => InputModifiers {
                    alt: state == KeyState::Pressed,
                    ..old(self).modifiers
                },
                KeyValue::Named(NamedKey::Meta) | KeyValue::Named(NamedKey::Super) | KeyValue::Named(
                    NamedKey::Hyper,
                ) => InputModifiers { meta: state == KeyState::Pressed, ..old(self).modifiers },
                _ => old(self).modifiers,
            }),
    {
        let pressed = state == KeyState::Pressed;
        match key {
            KeyValue::Named(NamedKey::Shift) => self.modifiers.shift = pressed,
            KeyValue::Named(NamedKey::Control) => self.modifiers.control = pressed,
            KeyValue::Named(NamedKey::Alt) | KeyValue::Named(NamedKey::AltGraph) => self.modifiers.alt = pressed,
            KeyValue::Named(NamedKey::Meta) | KeyValue::Named(NamedKey::Super) | KeyValue::Named(
                NamedKey::Hyper,
            ) => self.modifiers.meta = pressed,
            _ => {},
        }
    }

    /// Follows a mouse button press or release in the pointer modifiers.
    pub fn apply_mouse_button(&mut self, button: MouseButton, state: ButtonState)
        ensures
            final(self).last_click == old(self).last_click,
            final(self).modifiers == (match button {
                MouseButton::Left => InputModifiers {
                    left_mouse: state == ButtonState::Pressed,
                    ..old(self).modifiers
                },
                MouseButton::Middle => InputModifiers {
                    middle_mouse: state == ButtonState::Pressed,
                    ..old(self).modifiers
                },
                MouseButton::Right => InputModifiers {
                    right_mouse: state == ButtonState::Pressed,
                    ..old(self).modifiers
                },
                _ => old(self).modifiers,
            }),
    {
        let pressed = state == ButtonState::Pressed;
        match button {
            MouseButton::Left => self.modifiers.left_mouse = pressed,
            MouseButton::Middle => self.modifiers.middle_mouse = pressed,
            MouseButton::Right => self.modifiers.right_mouse = pressed,
            _ => {},
        }
    }

    /// The click count of a button event. A release reports the count of the
    /// press it ends (one when the remembered press was of another button); a
    /// press continues or restarts the sequence and becomes the remembered one.
    /// `elapsed_ms` is the time since the remembered press and `near` whether the
    /// pointer stayed within four pixels of it on both axes.
    pub fn click_count(
        &mut self,
        state: ButtonState,
        button: MouseButton,
        elapsed_ms: u64,
        near: bool,
    ) -> (count: u8)
        ensures
            final(self).modifiers == old(self).modifiers,
            state == ButtonState::Released ==> final(self).last_click == old(self).last_click
                && count == (match old(self).last_click {
                Some(click) => if click.button == button {
                    click.count
                } else {
                    1
                },
                None => 1,
            }),
            state == ButtonState::Pressed ==> count == next_click_count(
                old(self).last_click,
                button,
                elapsed_ms,
                near,
            ) && final(self).last_click == Some(Click { button, count }),
    {
        if state == ButtonState::Released {
            return match self.last_click {
                Some(click) => if click.button == button {
                    click.count
                } else {
                    1
                },
                None => 1,
            };
        }
        let count = match self.last_click {
            None => 1,
            Some(click) => if click.button == button && elapsed_ms <= CLICK_INTERVAL_MS && near {
                if click.count == 1 {
                    2
                } else if click.count == 2 {
                    3
                } else {
                    2
                }
            } else {
                1
            },
        };
        self.last_click = Some(Click { button, count });
        count
    }
}

/// A pressed run of nearby clicks counts 1, 2, 3 and then alternates 2, 3,
/// so a count never exceeds three and never drops below one.
pub proof fn lemma_click_count_bounded(
    last: Option<Click>,
    button: MouseButton,
    elapsed_ms: u64,
    near: bool,
)
    ensures
        1 <= next_click_count(last, button, elapsed_ms, near) <= 3,
        next_click_count(
            Some(Click { button, count: 3 }),
            button,
            elapsed_ms,
            near,
        ) == (if elapsed_ms <= CLICK_INTERVAL_MS && near {
            2u8
        } else {
            1u8
        }),
{
}

/// One key event handed to the browser for a keyboard event.
#[derive(Clone, Copy, Debug, PartialEq, Eq, Structural)]
pub enum KeyStep {
    RawKeyDown,
    KeyUp,
    Char(u16),
}

/// The key events that a keyboard event becomes: a raw key-down on a press and
/// a key-up on a release, and after a press one character event for each UTF-16
/// unit of the text it produced, in order.
pub open spec fn spec_key_event_plan(state: KeyState, text: Seq<u16>) -> Seq<KeyStep> {
    match state {
        KeyState::Pressed => seq![KeyStep::RawKeyDown] + text.map_values(|c: u16| KeyStep::Char(c)),
        KeyState::Released => seq![KeyStep::KeyUp],
    }
}

/// Plans the key events for a keyboard event with the given state and text.
pub fn key_event_plan(state: KeyState, text: &Vec<u16>) -> (plan: Vec<KeyStep>)
    ensures
        plan@ == spec_key_event_plan(state, text@),
{
    let mut plan: Vec<KeyStep> = Vec::new();
    match state {
        KeyState::Pressed => {
            plan.push(KeyStep::RawKeyDown);
            let mut i: usize = 0;
            while i < text.len()
                invariant
                    i <= text@.len(),
                    plan@ =~= seq![KeyStep::RawKeyDown] + text@.take(i as int).map_values(
                        |c: u16| KeyStep::Char(c),
                    ),
                decreases text.len() - i,
            {
                plan.push(KeyStep::Char(text[i]));
                proof {
                    assert(text@.take(i + 1) =~= text@.take(i as int).push(text@[i as int]));
                }
                i = i + 1;
            }
            proof {
                assert(text@.take(text@.len() as int) =~= text@);
            }
        },
        KeyState::Released => {
            plan.push(KeyStep::KeyUp);
        },
    }
    plan
}

/// The browser's mouse buttons.
#[derive(Clone, Copy, Debug, PartialEq, Eq, Structural)]
pub enum CefButton {
    Left,
    Right,
    Middle,
}

/// The browser button for a mouse button: left, right and middle have one;
/// back, forward and other buttons have none, and their clicks are dropped.
pub fn cef_mouse_button(button: MouseButton) -> (b: Option<CefButton>)
    ensures
        b == match button {
            MouseButton::Left => Some(CefButton::Left),
            MouseButton::Right => Some(CefButton::Right),
            MouseButton::Middle => Some(CefButton::Middle),
            _ => None::<CefButton>,
        },
{
    match button {
        MouseButton::Left => Some(CefButton::Left),
        MouseButton::Right => Some(CefButton::Right),
        MouseButton::Middle => Some(CefButton::Middle),
        _ => None,
    }
}

/// A composition cursor as the browser takes it: each end capped at `u32::MAX`,
/// and an empty range at the start without a cursor.
pub fn ime_selection(cursor: Option<(usize, usize)>) -> (range: (u32, u32))
    ensures
        range == match cursor {
            Some((from, to)) => (
                if from <= u32::MAX { from as u32 } else { u32::MAX },
                if to <= u32::MAX { to as u32 } else { u32::MAX },
            ),
            None => (0u32, 0u32),
        },
{
    match cursor {
        Some((from, to)) => {
            let a: u32 = if from <= 0xffff_ffffusize { from as u32 } else { u32::MAX };
            let b: u32 = if to <= 0xffff_ffffusize { to as u32 } else { u32::MAX };
            (a, b)
        },
        None => (0, 0),
    }
}

/// The Windows virtual-key codes the browser receives for named keys, as the
/// Win32 documentation lists them: the arrows are VK_LEFT 0x25, VK_UP 0x26,
/// VK_RIGHT 0x27 and VK_DOWN 0x28, the function keys F1 to F12 run from 0x70 to
/// 0x7B, and a key Windows has no code for gets none.
pub proof fn lemma_named_key_codes()
    ensures
        spec_virtual_key_code(KeyValue::Named(NamedKey::ArrowLeft)) == 0x25,
        spec_virtual_key_code(KeyValue::Named(NamedKey::ArrowUp)) == 0x26,
        spec_virtual_key_code(KeyValue::Named(NamedKey::ArrowRight)) == 0x27,
        spec_virtual_key_code(KeyValue::Named(NamedKey::ArrowDown)) == 0x28,
        spec_virtual_key_code(KeyValue::Named(NamedKey::PageUp)) == 0x21,
        spec_virtual_key_code(KeyValue::Named(NamedKey::PageDown)) == 0x22,
        spec_virtual_key_code(KeyValue::Named(NamedKey::End)) == 0x23,
        spec_virtual_key_code(KeyValue::Named(NamedKey::Home)) == 0x24,
        spec_virtual_key_code(KeyValue::Named(NamedKey::PrintScreen)) == 0x2C,
        spec_virtual_key_code(KeyValue::Named(NamedKey::Insert)) == 0x2D,
        spec_virtual_key_code(KeyValue::Named(NamedKey::Delete)) == 0x2E,
        spec_virtual_key_code(KeyValue::Named(NamedKey::Backspace)) == 0x08,
        spec_virtual_key_code(KeyValue::Named(NamedKey::Tab)) == 0x09,
        spec_virtual_key_code(KeyValue::Named(NamedKey::Enter)) == 0x0D,
        spec_virtual_key_code(KeyValue::Named(NamedKey::Shift)) == 0x10,
        spec_virtual_key_code(KeyValue::Named(NamedKey::Control)) == 0x11,
        spec_virtual_key_code(KeyValue::Named(NamedKey::Alt)) == 0x12,
        spec_virtual_key_code(KeyValue::Named(NamedKey::Pause)) == 0x13,
        spec_virtual_key_code(KeyValue::Named(NamedKey::CapsLock)) == 0x14,
        spec_virtual_key_code(KeyValue::Named(NamedKey::Escape)) == 0x1B,
        spec_virtual_key_code(KeyValue::Named(NamedKey::Meta)) == 0x5B,
        spec_virtual_key_code(KeyValue::Named(NamedKey::ContextMenu)) == 0x5D,
        spec_virtual_key_code(KeyValue::Named(NamedKey::NumLock)) == 0x90,
        spec_virtual_key_code(KeyValue::Named(NamedKey::ScrollLock)) == 0x91,
        spec_virtual_key_code(KeyValue::Named(NamedKey::AltGraph)) == 0xA5,
        spec_virtual_key_code(KeyValue::Named(NamedKey::BrowserBack)) == 0xA6,
        spec_virtual_key_code(KeyValue::Named(NamedKey::BrowserForward)) == 0xA7,
        spec_virtual_key_code(KeyValue::Named(NamedKey::BrowserRefresh)) == 0xA8,
        spec_virtual_key_code(KeyValue::Named(NamedKey::BrowserStop)) == 0xA9,
        spec_virtual_key_code(KeyValue::Named(NamedKey::BrowserSearch)) == 0xAA,
        spec_virtual_key_code(KeyValue::Named(NamedKey::BrowserFavorites)) == 0xAB,
        spec_virtual_key_code(KeyValue::Named(NamedKey::BrowserHome)) == 0xAC,
        spec_virtual_key_code(KeyValue::Named(NamedKey::AudioVolumeMute)) == 0xAD,
        spec_virtual_key_code(KeyValue::Named(NamedKey::AudioVolumeDown)) == 0xAE,
        spec_virtual_key_code(KeyValue::Named(NamedKey::AudioVolumeUp)) == 0xAF,
        spec_virtual_key_code(KeyValue::Named(NamedKey::F1)) == 0x70,
        spec_virtual_key_code(KeyValue::Named(NamedKey::F2)) == 0x71,
        spec_virtual_key_code(KeyValue::Named(NamedKey::F3)) == 0x72,
        spec_virtual_key_code(KeyValue::Named(NamedKey::F4)) == 0x73,
        spec_virtual_key_code(KeyValue::Named(NamedKey::F5)) == 0x74,
        spec_virtual_key_code(KeyValue::Named(NamedKey::F6)) == 0x75,
        spec_virtual_key_code(KeyValue::Named(NamedKey::F7)) == 0x76,
        spec_virtual_key_code(KeyValue::Named(NamedKey::F8)) == 0x77,
        spec_virtual_key_code(KeyValue::Named(NamedKey::F9)) == 0x78,
        spec_virtual_key_code(KeyValue::Named(NamedKey::F10)) == 0x79,
        spec_virtual_key_code(KeyValue::Named(NamedKey::F11)) == 0x7A,
        spec_virtual_key_code(KeyValue::Named(NamedKey::F12)) == 0x7B,
        spec_virtual_key_code(KeyValue::Named(NamedKey::Super)) == 0,
        spec_virtual_key_code(KeyValue::Named(NamedKey::Hyper)) == 0,
        spec_virtual_key_code(KeyValue::Named(NamedKey::Other)) == 0,
        spec_virtual_key_code(KeyValue::Unidentified) == 0,
{
}

/// Different named keys that have a code never share it, so the browser can
/// tell every such key from every other.
pub proof fn lemma_named_key_codes_distinct(a: NamedKey, b: NamedKey)
    requires
        a != b,
        spec_named_virtual_key(a) != 0,
    ensures
        spec_named_virtual_key(a) != spec_named_virtual_key(b),
{
}

/// Characters map to the key that types them on a US layout: a letter in either
/// case to its capital's code VK_A 0x41 to VK_Z 0x5A, a digit to VK_0 0x30 to
/// VK_9 0x39, a shifted symbol to the key it shares with its unshifted one (`!`
/// with `1`, `?` with `/`, and so on, using the documented OEM key codes), and a
/// space to VK_SPACE 0x20.
pub proof fn lemma_character_key_codes(c: char)
    ensures
        'a' <= c <= 'z' ==> spec_character_virtual_key(c) == 0x41 + (c as u32 - 'a' as u32),
        'A' <= c <= 'Z' ==> spec_character_virtual_key(c) == 0x41 + (c as u32 - 'A' as u32),
        '0' <= c <= '9' ==> spec_character_virtual_key(c) == 0x30 + (c as u32 - '0' as u32),
        spec_character_virtual_key('1') == 0x31 && spec_character_virtual_key('!') == 0x31,
        spec_character_virtual_key('2') == 0x32 && spec_character_virtual_key('@') == 0x32,
        spec_character_virtual_key('3') == 0x33 && spec_character_virtual_key('#') == 0x33,
        spec_character_virtual_key('4') == 0x34 && spec_character_virtual_key('$') == 0x34,
        spec_character_virtual_key('5') == 0x35 && spec_character_virtual_key('%') == 0x35,
        spec_character_virtual_key('6') == 0x36 && spec_character_virtual_key('^') == 0x36,
        spec_character_virtual_key('7') == 0x37 && spec_character_virtual_key('&') == 0x37,
        spec_character_virtual_key('8') == 0x38 && spec_character_virtual_key('*') == 0x38,
        spec_character_virtual_key('9') == 0x39 && spec_character_virtual_key('(') == 0x39,
        spec_character_virtual_key('0') == 0x30 && spec_character_virtual_key(')') == 0x30,
        spec_character_virtual_key('`') == 0xC0 && spec_character_virtual_key('~') == 0xC0,
        spec_character_virtual_key('-') == 0xBD && spec_character_virtual_key('_') == 0xBD,
        spec_character_virtual_key('=') == 0xBB && spec_character_virtual_key('+') == 0xBB,
        spec_character_virtual_key('[') == 0xDB && spec_character_virtual_key('{') == 0xDB,
        spec_character_virtual_key(']') == 0xDD && spec_character_virtual_key('}') == 0xDD,
        spec_character_virtual_key('\\') == 0xDC && spec_character_virtual_key('|') == 0xDC,
        spec_character_virtual_key(';') == 0xBA && spec_character_virtual_key(':') == 0xBA,
        spec_character_virtual_key(',') == 0xBC && spec_character_virtual_key('<') == 0xBC,
        spec_character_virtual_key('.') == 0xBE && spec_character_virtual_key('>') == 0xBE,
        spec_character_virtual_key('\'') == 0xDE && spec_character_virtual_key('"') == 0xDE,
        spec_character_virtual_key('/') == 0xBF && spec_character_virtual_key('?') == 0xBF,
        spec_character_virtual_key(' ') == 0x20,
        spec_character_virtual_key('\t') == 0,
{
}

/// The flags added up as an integer.
spec fn flag_sum(modifiers: InputModifiers, repeat: bool, location: KeyLocation) -> int {
    flag(modifiers.shift, 2) + flag(modifiers.control, 4) + flag(modifiers.alt, 8) + flag(
        modifiers.meta,
        128,
    ) + flag(modifiers.left_mouse, 16) + flag(modifiers.middle_mouse, 32) + flag(
        modifiers.right_mouse,
        64,
    ) + flag(repeat, 8192) + location_flag(location)
}

/// The flags never overflow, so they are their plain sum.
proof fn lemma_flags_are_their_sum()
    ensures
        forall|m: InputModifiers, r: bool, l: KeyLocation|
            #[trigger] spec_cef_modifiers(m, r, l) as int == flag_sum(m, r, l),
{
    assert forall|m: InputModifiers, r: bool, l: KeyLocation|
        #[trigger] spec_cef_modifiers(m, r, l) as int == flag_sum(m, r, l) by {
        assert(0 <= flag_sum(m, r, l) <= 0x4000);
    }
}

/// Turning on one modifier, mouse button or the repeat flag adds exactly its CEF
/// event flag to what the other inputs give (EVENTFLAG_SHIFT_DOWN 1<<1,
/// CONTROL 1<<2, ALT 1<<3, LEFT_MOUSE 1<<4, MIDDLE_MOUSE 1<<5, RIGHT_MOUSE 1<<6,
/// COMMAND 1<<7, IS_REPEAT 1<<13), and a key location adds its own (IS_KEY_PAD
/// 1<<9, IS_LEFT 1<<10, IS_RIGHT 1<<11); with nothing on the flags are zero.
#[verifier::rlimit(80)]
pub proof fn lemma_cef_flags_add_up(m: InputModifiers, repeat: bool, location: KeyLocation)
    ensures
        spec_cef_modifiers(InputModifiers::spec_none(), false, KeyLocation::Standard) == 0,
        spec_cef_modifiers(InputModifiers { shift: true, ..m }, repeat, location)
            == spec_cef_modifiers(InputModifiers { shift: false, ..m }, repeat, location) + 2,
        spec_cef_modifiers(InputModifiers { control: true, ..m }, repeat, location)
            == spec_cef_modifiers(InputModifiers { control: false, ..m }, repeat, location) + 4,
        spec_cef_modifiers(InputModifiers { alt: true, ..m }, repeat, location)
            == spec_cef_modifiers(InputModifiers { alt: false, ..m }, repeat, location) + 8,
        spec_cef_modifiers(InputModifiers { left_mouse: true, ..m }, repeat, location)
            == spec_cef_modifiers(InputModifiers { left_mouse: false, ..m }, repeat, location) + 16,
        spec_cef_modifiers(InputModifiers { middle_mouse: true, ..m }, repeat, location)
            == spec_cef_modifiers(InputModifiers { middle_mouse: false, ..m }, repeat, location) + 32,
        spec_cef_modifiers(InputModifiers { right_mouse: true, ..m }, repeat, location)
            == spec_cef_modifiers(InputModifiers { right_mouse: false, ..m }, repeat, location) + 64,
        spec_cef_modifiers(InputModifiers { meta: true, ..m }, repeat, location)
            == spec_cef_modifiers(InputModifiers { meta: false, ..m }, repeat, location) + 128,
        spec_cef_modifiers(m, true, location) == spec_cef_modifiers(m, false, location) + 8192,
        spec_cef_modifiers(m, repeat, KeyLocation::Numpad) == spec_cef_modifiers(m, repeat, KeyLocation::Standard) + 512,
        spec_cef_modifiers(m, repeat, KeyLocation::Left) == spec_cef_modifiers(m, repeat, KeyLocation::Standard) + 1024,
        spec_cef_modifiers(m, repeat, KeyLocation::Right) == spec_cef_modifiers(m, repeat, KeyLocation::Standard) + 2048,
{
    lemma_flags_are_their_sum();
}

} // verus!
