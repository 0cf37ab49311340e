use sync_image::hotkey::{Hotkey, HotkeyRule};

#[test]
fn parses_default_hotkey() {
    let hotkey: Hotkey = "Ctrl+Alt+U".parse().expect("default hotkey");

    assert!(hotkey.ctrl);
    assert!(hotkey.alt);
    assert!(!hotkey.shift);
    assert_eq!(hotkey.key, 'U');
}

#[test]
fn rejects_missing_modifier() {
    let err = "U".parse::<Hotkey>().expect_err("modifier required");
    assert!(err.message().contains("modifier"));
}

#[test]
fn parses_tokens_in_any_case_with_blanks() {
    let hotkey = Hotkey::parse(" control + SHIFT +k").expect("hotkey");
    assert_eq!(hotkey, Hotkey { ctrl: true, alt: false, shift: true, key: 'K' });
}

#[test]
fn last_key_wins_and_digits_are_keys() {
    let hotkey = Hotkey::parse("Alt+x+7").expect("hotkey");
    assert_eq!(hotkey, Hotkey { ctrl: false, alt: true, shift: false, key: '7' });
}

#[test]
fn rejects_non_alphanumeric_key() {
    let err = Hotkey::parse("Ctrl+?").expect_err("bad key");
    assert_eq!(err.rule, HotkeyRule::KeyNotAlphanumeric);
    assert_eq!(err.message(), "hotkey key must be an ASCII letter or digit");
}

#[test]
fn rejects_unsupported_token_first_in_order() {
    let err = Hotkey::parse("Ctrl+Meta+?").expect_err("bad token");
    assert_eq!(err.rule, HotkeyRule::UnsupportedToken);
    assert_eq!(err.message(), "unsupported hotkey token 'Meta'");
}

#[test]
fn rejects_empty_token() {
    let err = Hotkey::parse("Ctrl++U").expect_err("empty token");
    assert_eq!(err.rule, HotkeyRule::UnsupportedToken);
    assert_eq!(err.token, "");
}

#[test]
fn rejects_missing_key() {
    let err = Hotkey::parse("Ctrl+Alt").expect_err("no key");
    assert_eq!(err.rule, HotkeyRule::MissingKey);
    assert_eq!(err.message(), "hotkey must include a key, for example Ctrl+Alt+U");
}

#[test]
fn display_text_reads_back() {
    for text in ["Ctrl+Alt+U", "Shift+9", "ctrl+alt+shift+q", "Alt+Ctrl+a"] {
        let hotkey = Hotkey::parse(text).expect("hotkey");
        let shown = hotkey.to_text();
        assert_eq!(Hotkey::parse(&shown).expect("display text"), hotkey);
    }
    let hotkey = Hotkey::parse("alt+ctrl+u").expect("hotkey");
    assert_eq!(hotkey.to_text(), "Ctrl+Alt+U");
}
