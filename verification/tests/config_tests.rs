use blinder::config::{
    load_config, parse_bool, parse_millis, split_string, trim_string, default_triggers,
    DEFAULT_DURATION_MILLIS,
};

fn labels(v: &[&str]) -> Vec<String> {
    v.iter().map(|s| s.to_string()).collect()
}

#[test]
fn missing_config_gives_defaults() {
    let cfg = load_config(None);
    assert_eq!(cfg.triggers, labels(&["w", "a", "s", "d", "leftbutton", "rightbutton"]));
    assert_eq!(cfg.duration_millis, 1000);
    assert!(!cfg.debugging);
}

#[test]
fn one_line_config_gives_default_duration() {
    let cfg = load_config(Some("w,a,s,d"));
    assert_eq!(cfg.triggers, labels(&["w", "a", "s", "d"]));
    assert_eq!(cfg.duration_millis, 1000);
    assert!(!cfg.debugging);
}

#[test]
fn unparsable_duration_falls_back() {
    let cfg = load_config(Some("w,a\nNOTANUMBER"));
    assert_eq!(cfg.triggers, labels(&["w", "a"]));
    assert_eq!(cfg.duration_millis, 1000);
}

#[test]
fn full_config_parses() {
    let cfg = load_config(Some("W, Space ,LeftButton\n0.5\ntrue"));
    assert_eq!(cfg.triggers, labels(&["w", "space", "leftbutton"]));
    assert_eq!(cfg.duration_millis, 500);
    assert!(cfg.debugging);
}

#[test]
fn blank_trigger_line_gives_default_triggers() {
    let cfg = load_config(Some("\n2"));
    assert_eq!(cfg.triggers, labels(&["w", "a", "s", "d", "leftbutton", "rightbutton"]));
    assert_eq!(cfg.duration_millis, 2000);
}

#[test]
fn unparsable_flag_falls_back() {
    let cfg = load_config(Some("w\n1\nyes"));
    assert!(!cfg.debugging);
    let cfg = load_config(Some("w\n1\ntrue"));
    assert!(cfg.debugging);
    let cfg = load_config(Some("w\n1\nfalse"));
    assert!(!cfg.debugging);
}

#[test]
fn durations_parse_to_millis() {
    assert_eq!(parse_millis("1"), Some(1000));
    assert_eq!(parse_millis("0.5"), Some(500));
    assert_eq!(parse_millis("2.75"), Some(2750));
    assert_eq!(parse_millis(".5"), Some(500));
    assert_eq!(parse_millis("1."), Some(1000));
    assert_eq!(parse_millis("0.1234"), Some(123));
    assert_eq!(parse_millis("0"), Some(0));
    assert_eq!(parse_millis("999999999999"), Some(999_999_999_999_000));
}

#[test]
fn bad_durations_are_rejected() {
    assert_eq!(parse_millis(""), None);
    assert_eq!(parse_millis("."), None);
    assert_eq!(parse_millis("-1"), None);
    assert_eq!(parse_millis("1e3"), None);
    assert_eq!(parse_millis("1.2.3"), None);
    assert_eq!(parse_millis("NOTANUMBER"), None);
    assert_eq!(parse_millis("1000000000000"), None);
    assert_eq!(parse_millis(" 1"), None);
}

#[test]
fn bools_parse_exactly() {
    assert_eq!(parse_bool("true"), Some(true));
    assert_eq!(parse_bool("false"), Some(false));
    assert_eq!(parse_bool("True"), None);
    assert_eq!(parse_bool(""), None);
}

#[test]
fn splitting_keeps_every_segment() {
    assert_eq!(split_string("a,b,,c", ','), labels(&["a", "b", "", "c"]));
    assert_eq!(split_string("", ','), labels(&[""]));
    assert_eq!(split_string(",", ','), labels(&["", ""]));
    assert_eq!(split_string("one", ','), labels(&["one"]));
}

#[test]
fn trimming_strips_both_ends() {
    assert_eq!(trim_string("  w  "), "w".to_string());
    assert_eq!(trim_string("\t a b \r"), "a b".to_string());
    assert_eq!(trim_string("   "), "".to_string());
    assert_eq!(trim_string("w"), "w".to_string());
}

#[test]
fn default_triggers_cover_movement_and_mouse() {
    assert_eq!(default_triggers(), labels(&["w", "a", "s", "d", "leftbutton", "rightbutton"]));
    assert_eq!(DEFAULT_DURATION_MILLIS, 1000);
}
