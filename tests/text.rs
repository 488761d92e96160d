use macboxx::{decimal_text, get_keycode, is_configured, pad_settings, same_text, Command, StickKind};

#[test]
fn decimal_values() {
    assert_eq!(decimal_text(7_500_000), "0.75");
    assert_eq!(decimal_text(10_000_000), "1");
    assert_eq!(decimal_text(5_000_000), "0.5");
    assert_eq!(decimal_text(0), "0");
    assert_eq!(decimal_text(-2_500_000), "-0.25");
    assert_eq!(decimal_text(5_000_005), "0.5000005");
    assert_eq!(decimal_text(123_456_780), "12.345678");
    assert_eq!(decimal_text(i64::MIN), "-922337203685.4775808");
}

#[test]
fn command_lines() {
    assert_eq!(Command::Press("START".to_string()).to_line(), "PRESS START\n");
    assert_eq!(Command::Release("L".to_string()).to_line(), "RELEASE L\n");
    assert_eq!(Command::SetStick(StickKind::C, 0, 10_000_000).to_line(), "SET C 0 1\n");
    assert_eq!(
        Command::SetStick(StickKind::Control, 8_500_000, 1_500_000).to_line(),
        "SET MAIN 0.85 0.15\n"
    );
}

#[test]
fn key_names() {
    assert_eq!(get_keycode("KeyA"), "A");
    assert_eq!(get_keycode("Space"), " ");
    assert_eq!(get_keycode("BackQuote"), "`");
    assert_eq!(get_keycode("Minus"), "-");
    assert_eq!(get_keycode("Equal"), "=");
    assert_eq!(get_keycode("LeftBracket"), "[");
    assert_eq!(get_keycode("RightBracket"), "]");
    assert_eq!(get_keycode("SemiColon"), ";");
    assert_eq!(get_keycode("Quote"), "'");
    assert_eq!(get_keycode("BackSlash"), "\\");
    assert_eq!(get_keycode("IntlBackslash"), "\\");
    assert_eq!(get_keycode("Comma"), ",");
    assert_eq!(get_keycode("Dot"), ".");
    assert_eq!(get_keycode("Slash"), "/");
    assert_eq!(get_keycode("ShiftLeft"), "ShiftLeft");
    assert_eq!(get_keycode("Num1"), "Num1");
    assert_eq!(get_keycode("Unknown(42)"), "Unknown(42)");
    assert_eq!(get_keycode("KeyKey"), "");
    assert_eq!(get_keycode(""), "");
}

#[test]
fn text_equality() {
    assert!(same_text("MOD_X", "MOD_X"));
    assert!(!same_text("MOD_X", "MOD_Y"));
    assert!(!same_text("MOD", "MOD_X"));
    assert!(same_text("", ""));
}

#[test]
fn pad_configuration() {
    let s = pad_settings();
    assert_eq!(s.len(), 31);
    assert_eq!(s[0], ("Device".to_string(), "Pipe/0/macboxx".to_string()));
    assert_eq!(s[9], ("Main Stick/Up".to_string(), "Axis MAIN Y +".to_string()));
    assert_eq!(s[30], ("Triggers/Threshold".to_string(), "90.00000000000000".to_string()));
    assert!(is_configured(Some("Pipe/0/macboxx")));
    assert!(!is_configured(Some("XInput/0/Gamepad")));
    assert!(!is_configured(None));
}
