//! Resolution of configured trigger labels to named platform keys and
//! mouse buttons, and the canonical labels under which the listener
//! reports events. The platform registration itself is the host's work;
//! this module decides, verifiably, what each label names.

use vstd::prelude::*;
use crate::norm::{lower_seq, to_lowercase, str_eq, string_from_chars};

verus! {

/// A mouse button that a configured label can name.
#[derive(Clone, Copy, PartialEq, Eq, Debug)]
pub enum MouseButtonId {
    LeftButton,
    RightButton,
    MiddleButton,
    X1Button,
    X2Button,
}

/// The mouse button, if any, that a normalized label names.
pub open spec fn spec_mouse_button(s: Seq<char>) -> Option<MouseButtonId> {
    if s == "leftbutton"@ {
        Some(MouseButtonId::LeftButton)
    } else if s == "rightbutton"@ {
        Some(MouseButtonId::RightButton)
    } else if s == "middlebutton"@ {
        Some(MouseButtonId::MiddleButton)
    } else if s == "x1button"@ {
        Some(MouseButtonId::X1Button)
    } else if s == "x2button"@ {
        Some(MouseButtonId::X2Button)
    } else {
        None
    }
}

/// Resolve a label to a mouse button, matching case-insensitively.
pub fn get_mousebd_button(s: &str) -> (r: Option<MouseButtonId>)
    ensures
        r == spec_mouse_button(lower_seq(s@)),
{
    let low = to_lowercase(s);
    let l = low.as_str();
    if str_eq(l, "leftbutton") {
        Some(MouseButtonId::LeftButton)
    } else if str_eq(l, "rightbutton") {
        Some(MouseButtonId::RightButton)
    } else if str_eq(l, "middlebutton") {
        Some(MouseButtonId::MiddleButton)
    } else if str_eq(l, "x1button") {
        Some(MouseButtonId::X1Button)
    } else if str_eq(l, "x2button") {
        Some(MouseButtonId::X2Button)
    } else {
        None
    }
}

/// A non-printable or named keyboard key that a multi-character label
/// can name.
#[derive(Clone, Copy, PartialEq, Eq, Debug)]
pub enum KeybdKeyId {
    BackspaceKey,
    TabKey,
    EnterKey,
    EscapeKey,
    SpaceKey,
    PageUpKey,
    PageDownKey,
    EndKey,
    HomeKey,
    LeftKey,
    UpKey,
    RightKey,
    DownKey,
    InsertKey,
    DeleteKey,
    LSuper,
    RSuper,
    Numpad0Key,
    Numpad1Key,
    Numpad2Key,
    Numpad3Key,
    Numpad4Key,
    Numpad5Key,
    Numpad6Key,
    Numpad7Key,
    Numpad8Key,
    Numpad9Key,
    F1Key,
    F2Key,
    F3Key,
    F4Key,
    F5Key,
    F6Key,
    F7Key,
    F8Key,
    F9Key,
    F10Key,
    F11Key,
    F12Key,
    F13Key,
    F14Key,
    F15Key,
    F16Key,
    F17Key,
    F18Key,
    F19Key,
    F20Key,
    F21Key,
    F22Key,
    F23Key,
    F24Key,
    NumLockKey,
    ScrollLockKey,
    CapsLockKey,
    LShiftKey,
    RShiftKey,
    LControlKey,
    RControlKey,
    LAltKey,
    RAltKey,
    BrowserBackKey,
    BrowserForwardKey,
    BrowserRefreshKey,
    VolumeMuteKey,
    VolumeDownKey,
    VolumeUpKey,
    MediaNextTrackKey,
    MediaPrevTrackKey,
    MediaStopKey,
    MediaPlayPauseKey,
    BackquoteKey,
    SlashKey,
    BackslashKey,
    CommaKey,
    PeriodKey,
    MinusKey,
    QuoteKey,
    SemicolonKey,
    LBracketKey,
    RBracketKey,
    EqualKey,
}

/// The named key, if any, that a normalized multi-character label names.
pub open spec fn spec_keybd_longkey(s: Seq<char>) -> Option<KeybdKeyId> {
    if s == "backspace"@ {
        Some(KeybdKeyId::BackspaceKey)
    } else if s == "tab"@ {
        Some(KeybdKeyId::TabKey)
    } else if s == "enter"@ {
        Some(KeybdKeyId::EnterKey)
    } else if s == "escape"@ {
        Some(KeybdKeyId::EscapeKey)
    } else if s == "space"@ {
        Some(KeybdKeyId::SpaceKey)
    } else if s == "pageup"@ {
        Some(KeybdKeyId::PageUpKey)
    } else if s == "pagedown"@ {
        Some(KeybdKeyId::PageDownKey)
    } else if s == "end"@ {
        Some(KeybdKeyId::EndKey)
    } else if s == "home"@ {
        Some(KeybdKeyId::HomeKey)
    } else if s == "left"@ {
        Some(KeybdKeyId::LeftKey)
    } else if s == "up"@ {
        Some(KeybdKeyId::UpKey)
    } else if s == "right"@ {
        Some(KeybdKeyId::RightKey)
    } else if s == "down"@ {
        Some(KeybdKeyId::DownKey)
    } else if s == "insert"@ {
        Some(KeybdKeyId::InsertKey)
    } else if s == "delete"@ {
        Some(KeybdKeyId::DeleteKey)
    } else if s == "lsuper"@ {
        Some(KeybdKeyId::LSuper)
    } else if s == "lwindows"@ {
        Some(KeybdKeyId::LSuper)
    } else if s == "lcommand"@ {
        Some(KeybdKeyId::LSuper)
    } else if s == "rsuper"@ {
        Some(KeybdKeyId::RSuper)
    } else if s == "rwindows"@ {
        Some(KeybdKeyId::RSuper)
    } else if s == "rcommand"@ {
        Some(KeybdKeyId::RSuper)
    } else if s == "numpad0"@ {
        Some(KeybdKeyId::Numpad0Key)
    } else if s == "numpad1"@ {
        Some(KeybdKeyId::Numpad1Key)
    } else if s == "numpad2"@ {
        Some(KeybdKeyId::Numpad2Key)
    } else if s == "numpad3"@ {
        Some(KeybdKeyId::Numpad3Key)
    } else if s == "numpad4"@ {
        Some(KeybdKeyId::Numpad4Key)
    } else if s == "numpad5"@ {
        Some(KeybdKeyId::Numpad5Key)
    } else if s == "numpad6"@ {
        Some(KeybdKeyId::Numpad6Key)
    } else if s == "numpad7"@ {
        Some(KeybdKeyId::Numpad7Key)
    } else if s == "numpad8"@ {
        Some(KeybdKeyId::Numpad8Key)
    } else if s == "numpad9"@ {
        Some(KeybdKeyId::Numpad9Key)
    } else if s == "f1"@ {
        Some(KeybdKeyId::F1Key)
    } else if s == "f2"@ {
        Some(KeybdKeyId::F2Key)
    } else if s == "f3"@ {
        Some(KeybdKeyId::F3Key)
    } else if s == "f4"@ {
        Some(KeybdKeyId::F4Key)
    } else if s == "f5"@ {
        Some(KeybdKeyId::F5Key)
    } else if s == "f6"@ {
        Some(KeybdKeyId::F6Key)
    } else if s == "f7"@ {
        Some(KeybdKeyId::F7Key)
    } else if s == "f8"@ {
        Some(KeybdKeyId::F8Key)
    } else if s == "f9"@ {
        Some(KeybdKeyId::F9Key)
    } else if s == "f10"@ {
        Some(KeybdKeyId::F10Key)
    } else if s == "f11"@ {
        Some(KeybdKeyId::F11Key)
    } else if s == "f12"@ {
        Some(KeybdKeyId::F12Key)
    } else if s == "f13"@ {
        Some(KeybdKeyId::F13Key)
    } else if s == "f14"@ {
        Some(KeybdKeyId::F14Key)
    } else if s == "f15"@ {
        Some(KeybdKeyId::F15Key)
    } else if s == "f16"@ {
        Some(KeybdKeyId::F16Key)
    } else if s == "f17"@ {
        Some(KeybdKeyId::F17Key)
    } else if s == "f18"@ {
        Some(KeybdKeyId::F18Key)
    } else if s == "f19"@ {
        Some(KeybdKeyId::F19Key)
    } else if s == "f20"@ {
        Some(KeybdKeyId::F20Key)
    } else if s == "f21"@ {
        Some(KeybdKeyId::F21Key)
    } else if s == "f22"@ {
        Some(KeybdKeyId::F22Key)
    } else if s == "f23"@ {
        Some(KeybdKeyId::F23Key)
    } else if s == "f24"@ {
        Some(KeybdKeyId::F24Key)
    } else if s == "numlock"@ {
        Some(KeybdKeyId::NumLockKey)
    } else if s == "scrolllock"@ {
        Some(KeybdKeyId::ScrollLockKey)
    } else if s == "capslock"@ {
        Some(KeybdKeyId::CapsLockKey)
    } else if s == "leftshift"@ {
        Some(KeybdKeyId::LShiftKey)
    } else if s == "rightshift"@ {
        Some(KeybdKeyId::RShiftKey)
    } else if s == "leftcontrol"@ {
        Some(KeybdKeyId::LControlKey)
    } else if s == "rightcontrol"@ {
        Some(KeybdKeyId::RControlKey)
    } else if s == "leftalt"@ {
        Some(KeybdKeyId::LAltKey)
    } else if s == "rightalt"@ {
        Some(KeybdKeyId::RAltKey)
    } else if s == "back"@ {
        Some(KeybdKeyId::BrowserBackKey)
    } else if s == "forward"@ {
        Some(KeybdKeyId::BrowserForwardKey)
    } else if s == "refresh"@ {
        Some(KeybdKeyId::BrowserRefreshKey)
    } else if s == "volumemute"@ {
        Some(KeybdKeyId::VolumeMuteKey)
    } else if s == "volumedown"@ {
        Some(KeybdKeyId::VolumeDownKey)
    } else if s == "volumeup"@ {
        Some(KeybdKeyId::VolumeUpKey)
    } else if s == "medianext"@ {
        Some(KeybdKeyId::MediaNextTrackKey)
    } else if s == "mediaprevious"@ {
        Some(KeybdKeyId::MediaPrevTrackKey)
    } else if s == "mediastop"@ {
        Some(KeybdKeyId::MediaStopKey)
    } else if s == "mediaplay"@ {
        Some(KeybdKeyId::MediaPlayPauseKey)
    } else if s == "backquote"@ {
        Some(KeybdKeyId::BackquoteKey)
    } else if s == "slash"@ {
        Some(KeybdKeyId::SlashKey)
    } else if s == "backslash"@ {
        Some(KeybdKeyId::BackslashKey)
    } else if s == "comma"@ {
        Some(KeybdKeyId::CommaKey)
    } else if s == "period"@ {
        Some(KeybdKeyId::PeriodKey)
    } else if s == "minus"@ {
        Some(KeybdKeyId::MinusKey)
    } else if s == "quotekey"@ {
        Some(KeybdKeyId::QuoteKey)
    } else if s == "semicolon"@ {
        Some(KeybdKeyId::SemicolonKey)
    } else if s == "leftbracket"@ {
        Some(KeybdKeyId::LBracketKey)
    } else if s == "rightbracket"@ {
        Some(KeybdKeyId::RBracketKey)
    } else if s == "equal"@ {
        Some(KeybdKeyId::EqualKey)
    } else {
        None
    }
}

/// Resolve a label to a named keyboard key, matching case-insensitively.
pub fn get_keybd_longkey(s: &str) -> (r: Option<KeybdKeyId>)
    ensures
        r == spec_keybd_longkey(lower_seq(s@)),
{
    let low = to_lowercase(s);
    let l = low.as_str();
    if str_eq(l, "backspace") {
        Some(KeybdKeyId::BackspaceKey)
    } else if str_eq(l, "tab") {
        Some(KeybdKeyId::TabKey)
    } else if str_eq(l, "enter") {
        Some(KeybdKeyId::EnterKey)
    } else if str_eq(l, "escape") {
        Some(KeybdKeyId::EscapeKey)
    } else if str_eq(l, "space") {
        Some(KeybdKeyId::SpaceKey)
    } else if str_eq(l, "pageup") {
        Some(KeybdKeyId::PageUpKey)
    } else if str_eq(l, "pagedown") {
        Some(KeybdKeyId::PageDownKey)
    } else if str_eq(l, "end") {
        Some(KeybdKeyId::EndKey)
    } else if str_eq(l, "home") {
        Some(KeybdKeyId::HomeKey)
    } else if str_eq(l, "left") {
        Some(KeybdKeyId::LeftKey)
    } else if str_eq(l, "up") {
        Some(KeybdKeyId::UpKey)
    } else if str_eq(l, "right") {
        Some(KeybdKeyId::RightKey)
    } else if str_eq(l, "down") {
        Some(KeybdKeyId::DownKey)
    } else if str_eq(l, "insert") {
        Some(KeybdKeyId::InsertKey)
    } else if str_eq(l, "delete") {
        Some(KeybdKeyId::DeleteKey)
    } else if str_eq(l, "lsuper") {
        Some(KeybdKeyId::LSuper)
    } else if str_eq(l, "lwindows") {
        Some(KeybdKeyId::LSuper)
    } else if str_eq(l, "lcommand") {
        Some(KeybdKeyId::LSuper)
    } else if str_eq(l, "rsuper") {
        Some(KeybdKeyId::RSuper)
    } else if str_eq(l, "rwindows") {
        Some(KeybdKeyId::RSuper)
    } else if str_eq(l, "rcommand") {
        Some(KeybdKeyId::RSuper)
    } else if str_eq(l, "numpad0") {
        Some(KeybdKeyId::Numpad0Key)
    } else if str_eq(l, "numpad1") {
        Some(KeybdKeyId::Numpad1Key)
    } else if str_eq(l, "numpad2") {
        Some(KeybdKeyId::Numpad2Key)
    } else if str_eq(l, "numpad3") {
        Some(KeybdKeyId::Numpad3Key)
    } else if str_eq(l, "numpad4") {
        Some(KeybdKeyId::Numpad4Key)
    } else if str_eq(l, "numpad5") {
        Some(KeybdKeyId::Numpad5Key)
    } else if str_eq(l, "numpad6") {
        Some(KeybdKeyId::Numpad6Key)
    } else if str_eq(l, "numpad7") {
        Some(KeybdKeyId::Numpad7Key)
    } else if str_eq(l, "numpad8") {
        Some(KeybdKeyId::Numpad8Key)
    } else if str_eq(l, "numpad9") {
        Some(KeybdKeyId::Numpad9Key)
    } else if str_eq(l, "f1") {
        Some(KeybdKeyId::F1Key)
    } else if str_eq(l, "f2") {
        Some(KeybdKeyId::F2Key)
    } else if str_eq(l, "f3") {
        Some(KeybdKeyId::F3Key)
    } else if str_eq(l, "f4") {
        Some(KeybdKeyId::F4Key)
    } else if str_eq(l, "f5") {
        Some(KeybdKeyId::F5Key)
    } else if str_eq(l, "f6") {
        Some(KeybdKeyId::F6Key)
    } else if str_eq(l, "f7") {
        Some(KeybdKeyId::F7Key)
    } else if str_eq(l, "f8") {
        Some(KeybdKeyId::F8Key)
    } else if str_eq(l, "f9") {
        Some(KeybdKeyId::F9Key)
    } else if str_eq(l, "f10") {
        Some(KeybdKeyId::F10Key)
    } else if str_eq(l, "f11") {
        Some(KeybdKeyId::F11Key)
    } else if str_eq(l, "f12") {
        Some(KeybdKeyId::F12Key)
    } else if str_eq(l, "f13") {
        Some(KeybdKeyId::F13Key)
    } else if str_eq(l, "f14") {
        Some(KeybdKeyId::F14Key)
    } else if str_eq(l, "f15") {
        Some(KeybdKeyId::F15Key)
    } else if str_eq(l, "f16") {
        Some(KeybdKeyId::F16Key)
    } else if str_eq(l, "f17") {
        Some(KeybdKeyId::F17Key)
    } else if str_eq(l, "f18") {
        Some(KeybdKeyId::F18Key)
    } else if str_eq(l, "f19") {
        Some(KeybdKeyId::F19Key)
    } else if str_eq(l, "f20") {
        Some(KeybdKeyId::F20Key)
    } else if str_eq(l, "f21") {
        Some(KeybdKeyId::F21Key)
    } else if str_eq(l, "f22") {
        Some(KeybdKeyId::F22Key)
    } else if str_eq(l, "f23") {
        Some(KeybdKeyId::F23Key)
    } else if str_eq(l, "f24") {
        Some(KeybdKeyId::F24Key)
    } else if str_eq(l, "numlock") {
        Some(KeybdKeyId::NumLockKey)
    } else if str_eq(l, "scrolllock") {
        Some(KeybdKeyId::ScrollLockKey)
    } else if str_eq(l, "capslock") {
        Some(KeybdKeyId::CapsLockKey)
    } else if str_eq(l, "leftshift") {
        Some(KeybdKeyId::LShiftKey)
    } else if str_eq(l, "rightshift") {
        Some(KeybdKeyId::RShiftKey)
    } else if str_eq(l, "leftcontrol") {
        Some(KeybdKeyId::LControlKey)
    } else if str_eq(l, "rightcontrol") {
        Some(KeybdKeyId::RControlKey)
    } else if str_eq(l, "leftalt") {
        Some(KeybdKeyId::LAltKey)
    } else if str_eq(l, "rightalt") {
        Some(KeybdKeyId::RAltKey)
    } else if str_eq(l, "back") {
        Some(KeybdKeyId::BrowserBackKey)
    } else if str_eq(l, "forward") {
        Some(KeybdKeyId::BrowserForwardKey)
    } else if str_eq(l, "refresh") {
        Some(KeybdKeyId::BrowserRefreshKey)
    } else if str_eq(l, "volumemute") {
        Some(KeybdKeyId::VolumeMuteKey)
    } else if str_eq(l, "volumedown") {
        Some(KeybdKeyId::VolumeDownKey)
    } else if str_eq(l, "volumeup") {
        Some(KeybdKeyId::VolumeUpKey)
    } else if str_eq(l, "medianext") {
        Some(KeybdKeyId::MediaNextTrackKey)
    } else if str_eq(l, "mediaprevious") {
        Some(KeybdKeyId::MediaPrevTrackKey)
    } else if str_eq(l, "mediastop") {
        Some(KeybdKeyId::MediaStopKey)
    } else if str_eq(l, "mediaplay") {
        Some(KeybdKeyId::MediaPlayPauseKey)
    } else if str_eq(l, "backquote") {
        Some(KeybdKeyId::BackquoteKey)
    } else if str_eq(l, "slash") {
        Some(KeybdKeyId::SlashKey)
    } else if str_eq(l, "backslash") {
        Some(KeybdKeyId::BackslashKey)
    } else if str_eq(l, "comma") {
        Some(KeybdKeyId::CommaKey)
    } else if str_eq(l, "period") {
        Some(KeybdKeyId::PeriodKey)
    } else if str_eq(l, "minus") {
        Some(KeybdKeyId::MinusKey)
    } else if str_eq(l, "quotekey") {
        Some(KeybdKeyId::QuoteKey)
    } else if str_eq(l, "semicolon") {
        Some(KeybdKeyId::SemicolonKey)
    } else if str_eq(l, "leftbracket") {
        Some(KeybdKeyId::LBracketKey)
    } else if str_eq(l, "rightbracket") {
        Some(KeybdKeyId::RBracketKey)
    } else if str_eq(l, "equal") {
        Some(KeybdKeyId::EqualKey)
    } else {
        None
    }
}

/// What one configured label resolves to.
#[derive(Clone, Copy, PartialEq, Eq, Debug)]
pub enum BindAction {
    /// A single-character label, bound through the platform's character
    /// map by the host.
    CharKey(char),
    /// A named mouse button.
    MouseBind(MouseButtonId),
    /// A named keyboard key.
    LongKeyBind(KeybdKeyId),
    /// A multi-character label that names nothing; reported and skipped.
    Unknown,
    /// An empty label; reported and skipped.
    Empty,
}

/// The resolution of one configured label: single characters go to the
/// platform's character map, longer labels name a mouse button or a
/// named key, and anything else is unknown.
pub open spec fn spec_resolve(s: Seq<char>) -> BindAction {
    if s.len() == 0 {
        BindAction::Empty
    } else if s.len() == 1 {
        BindAction::CharKey(s[0])
    } else {
        match spec_mouse_button(lower_seq(s)) {
            Some(b) => BindAction::MouseBind(b),
            None => match spec_keybd_longkey(lower_seq(s)) {
                Some(k) => BindAction::LongKeyBind(k),
                None => BindAction::Unknown,
            },
        }
    }
}

/// Resolve one configured label.
pub fn resolve_bind(s: &str) -> (r: BindAction)
    ensures
        r == spec_resolve(s@),
{
    let len = s.unicode_len();
    if len == 0 {
        BindAction::Empty
    } else if len == 1 {
        BindAction::CharKey(s.get_char(0))
    } else {
        match get_mousebd_button(s) {
            Some(b) => BindAction::MouseBind(b),
            None => match get_keybd_longkey(s) {
                Some(k) => BindAction::LongKeyBind(k),
                None => BindAction::Unknown,
            },
        }
    }
}

/// Resolve every configured label, in order. The host registers one
/// platform binding per resolved action and reports the rest.
pub fn make_binds(triggers: &Vec<String>) -> (r: Vec<BindAction>)
    ensures
        r@ == triggers@.map_values(|t: String| spec_resolve(t@)),
{
    let mut out: Vec<BindAction> = Vec::new();
    let mut i: usize = 0;
    while i < triggers.len()
        invariant
            i <= triggers@.len(),
            out@ == triggers@.take(i as int).map_values(|t: String| spec_resolve(t@)),
        decreases triggers@.len() - i,
    {
        let a = resolve_bind(triggers[i].as_str());
        out.push(a);
        i += 1;
        proof {
            assert(out@ =~= triggers@.take(i as int).map_values(|t: String| spec_resolve(t@)));
        }
    }
    proof {
        assert(triggers@.take(triggers@.len() as int) =~= triggers@);
    }
    out
}

/// The canonical label under which the listener reports a mouse-button
/// event: the button's own name.
pub open spec fn spec_button_label(b: MouseButtonId) -> Seq<char> {
    match b {
        MouseButtonId::LeftButton => "LeftButton"@,
        MouseButtonId::RightButton => "RightButton"@,
        MouseButtonId::MiddleButton => "MiddleButton"@,
        MouseButtonId::X1Button => "X1Button"@,
        MouseButtonId::X2Button => "X2Button"@,
    }
}

/// The label a mouse-button event is reported under.
pub fn button_label(b: MouseButtonId) -> (r: String)
    ensures
        r@ == spec_button_label(b),
{
    match b {
        MouseButtonId::LeftButton => String::from_str("LeftButton"),
        MouseButtonId::RightButton => String::from_str("RightButton"),
        MouseButtonId::MiddleButton => String::from_str("MiddleButton"),
        MouseButtonId::X1Button => String::from_str("X1Button"),
        MouseButtonId::X2Button => String::from_str("X2Button"),
    }
}

/// The canonical label of a character-key event: the character itself.
pub fn char_label(c: char) -> (r: String)
    ensures
        r@ == seq![c],
{
    let mut v: Vec<char> = Vec::new();
    v.push(c);
    proof {
        assert(v@ =~= seq![c]);
    }
    string_from_chars(&v)
}

/// Reported labels and configured tokens agree: a mouse button's own
/// event label, once normalized, resolves back to exactly that button.
pub proof fn lemma_button_label_round_trip(b: MouseButtonId)
    ensures
        spec_mouse_button(lower_seq(spec_button_label(b))) == Some(b),
{
    reveal_strlit("LeftButton");
    reveal_strlit("leftbutton");
    reveal_strlit("RightButton");
    reveal_strlit("rightbutton");
    reveal_strlit("MiddleButton");
    reveal_strlit("middlebutton");
    reveal_strlit("X1Button");
    reveal_strlit("x1button");
    reveal_strlit("X2Button");
    reveal_strlit("x2button");
    assert("leftbutton"@.len() == 10);
    assert("rightbutton"@.len() == 11);
    assert("middlebutton"@.len() == 12);
    assert("x1button"@.len() == 8);
    assert("x2button"@.len() == 8);
    assert("x1button"@[1] == '1');
    assert("x2button"@[1] == '2');
    match b {
        MouseButtonId::LeftButton => {
            assert(lower_seq("LeftButton"@) =~= "leftbutton"@);
        },
        MouseButtonId::RightButton => {
            assert(lower_seq("RightButton"@) =~= "rightbutton"@);
        },
        MouseButtonId::MiddleButton => {
            assert(lower_seq("MiddleButton"@) =~= "middlebutton"@);
        },
        MouseButtonId::X1Button => {
            assert(lower_seq("X1Button"@) =~= "x1button"@);
        },
        MouseButtonId::X2Button => {
            assert(lower_seq("X2Button"@) =~= "x2button"@);
        },
    }
}

} // verus!
