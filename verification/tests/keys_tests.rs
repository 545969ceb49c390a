use blinder::keys::{
    button_label, char_label, get_keybd_longkey, get_mousebd_button, make_binds, resolve_bind,
    BindAction, KeybdKeyId, MouseButtonId,
};
use blinder::norm::{str_eq, to_lowercase};

#[test]
fn mouse_buttons_resolve_case_insensitively() {
    assert_eq!(get_mousebd_button("leftbutton"), Some(MouseButtonId::LeftButton));
    assert_eq!(get_mousebd_button("LeftButton"), Some(MouseButtonId::LeftButton));
    assert_eq!(get_mousebd_button("RIGHTBUTTON"), Some(MouseButtonId::RightButton));
    assert_eq!(get_mousebd_button("middlebutton"), Some(MouseButtonId::MiddleButton));
    assert_eq!(get_mousebd_button("x1button"), Some(MouseButtonId::X1Button));
    assert_eq!(get_mousebd_button("x2button"), Some(MouseButtonId::X2Button));
    assert_eq!(get_mousebd_button("wheel"), None);
    assert_eq!(get_mousebd_button(""), None);
}

#[test]
fn long_keys_resolve_case_insensitively() {
    assert_eq!(get_keybd_longkey("space"), Some(KeybdKeyId::SpaceKey));
    assert_eq!(get_keybd_longkey("Space"), Some(KeybdKeyId::SpaceKey));
    assert_eq!(get_keybd_longkey("F5"), Some(KeybdKeyId::F5Key));
    assert_eq!(get_keybd_longkey("f24"), Some(KeybdKeyId::F24Key));
    assert_eq!(get_keybd_longkey("lsuper"), Some(KeybdKeyId::LSuper));
    assert_eq!(get_keybd_longkey("lwindows"), Some(KeybdKeyId::LSuper));
    assert_eq!(get_keybd_longkey("lcommand"), Some(KeybdKeyId::LSuper));
    assert_eq!(get_keybd_longkey("rcommand"), Some(KeybdKeyId::RSuper));
    assert_eq!(get_keybd_longkey("numpad7"), Some(KeybdKeyId::Numpad7Key));
    assert_eq!(get_keybd_longkey("mediaplay"), Some(KeybdKeyId::MediaPlayPauseKey));
    assert_eq!(get_keybd_longkey("Equal"), Some(KeybdKeyId::EqualKey));
    assert_eq!(get_keybd_longkey("hyper"), None);
    assert_eq!(get_keybd_longkey(""), None);
}

#[test]
fn labels_resolve_by_length() {
    assert_eq!(resolve_bind(""), BindAction::Empty);
    assert_eq!(resolve_bind("w"), BindAction::CharKey('w'));
    assert_eq!(resolve_bind("W"), BindAction::CharKey('W'));
    assert_eq!(resolve_bind("leftbutton"), BindAction::MouseBind(MouseButtonId::LeftButton));
    assert_eq!(resolve_bind("space"), BindAction::LongKeyBind(KeybdKeyId::SpaceKey));
    assert_eq!(resolve_bind("zzz"), BindAction::Unknown);
}

#[test]
fn make_binds_resolves_each_label_in_order() {
    let labels: Vec<String> =
        ["w", "leftbutton", "space", "zzz", ""].iter().map(|s| s.to_string()).collect();
    let actions = make_binds(&labels);
    assert_eq!(
        actions,
        vec![
            BindAction::CharKey('w'),
            BindAction::MouseBind(MouseButtonId::LeftButton),
            BindAction::LongKeyBind(KeybdKeyId::SpaceKey),
            BindAction::Unknown,
            BindAction::Empty,
        ]
    );
}

#[test]
fn event_labels_match_their_tokens() {
    // what the listener reports resolves back to the same button
    for b in [
        MouseButtonId::LeftButton,
        MouseButtonId::RightButton,
        MouseButtonId::MiddleButton,
        MouseButtonId::X1Button,
        MouseButtonId::X2Button,
    ] {
        let label = button_label(b);
        assert_eq!(get_mousebd_button(label.as_str()), Some(b));
    }
    assert_eq!(button_label(MouseButtonId::LeftButton), "LeftButton".to_string());
    assert_eq!(char_label('a'), "a".to_string());
    assert_eq!(char_label('Z'), "Z".to_string());
}

#[test]
fn normalization_folds_ascii_case() {
    assert_eq!(to_lowercase("AbC"), "abc".to_string());
    assert_eq!(to_lowercase("LEFTBUTTON"), "leftbutton".to_string());
    assert_eq!(to_lowercase("f5!"), "f5!".to_string());
    assert_eq!(to_lowercase(""), "".to_string());
    assert!(str_eq("abc", "abc"));
    assert!(!str_eq("abc", "abd"));
    assert!(!str_eq("abc", "ab"));
}
