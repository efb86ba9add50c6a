use multimpaste::config::{Config, DEFAULT_HOTKEY};
use multimpaste::hotkey::{parse_shortcut, register_notice};

#[test]
fn default_settings() {
    let config = Config::default();
    assert_eq!(config.history_size, 10);
    assert_eq!(config.hotkey, DEFAULT_HOTKEY);
    assert!(!config.start_at_login);
    assert!(config.paste_on_select);
}

#[test]
fn default_hotkey_parses() {
    parse_shortcut(DEFAULT_HOTKEY).unwrap();
}

#[test]
fn unknown_key_gives_a_parse_notice() {
    let notice = parse_shortcut("Ctrl+Nope").unwrap_err();
    assert!(notice.starts_with("Could not parse shortcut \"Ctrl+Nope\": "));
    assert!(notice.len() > "Could not parse shortcut \"Ctrl+Nope\": ".len());
}

#[test]
fn empty_part_gives_a_parse_notice() {
    let notice = parse_shortcut("Ctrl++V").unwrap_err();
    assert!(notice.starts_with("Could not parse shortcut \"Ctrl++V\": "));
}

#[test]
fn register_notice_names_the_shortcut() {
    assert_eq!(
        register_notice("Alt+K", "taken"),
        "Could not register shortcut \"Alt+K\": taken"
    );
}
