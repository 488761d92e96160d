use macboxx::{setup_keymap, Command, Controller, KeyHandler, KeymapConfig, ModFactors, StickKind};

fn pairs(entries: &[(&str, &str)]) -> Vec<(String, String)> {
    entries.iter().map(|(a, b)| (a.to_string(), b.to_string())).collect()
}

fn handler() -> KeyHandler {
    let config = KeymapConfig {
        buttons: pairs(&[("A", "J"), ("B", "H"), ("Z", " ")]),
        control_stick: pairs(&[("UP", "W"), ("DOWN", "S"), ("LEFT", "A"), ("RIGHT", "D")]),
        c_stick: pairs(&[("UP", "I"), ("DOWN", "K"), ("LEFT", "U"), ("RIGHT", "O")]),
        triggers: pairs(&[("L", "Q"), ("R", "E")]),
        mods: pairs(&[("MOD_X", "ShiftLeft"), ("MOD_Y", "Alt")]),
        mod_factors: ModFactors { x: 500_000, up: 700_000, down: 300_000 },
    };
    let keymap = setup_keymap(&config).unwrap();
    let f = keymap.mod_factors;
    KeyHandler::new(Controller::new(f.x, f.up, f.down), keymap)
}

fn lines(h: &mut KeyHandler) -> Vec<String> {
    h.take_commands().iter().map(|c| c.to_line()).collect()
}

#[test]
fn second_press_sends_nothing() {
    let mut h = handler();
    h.on_press("KeyJ");
    h.on_press("KeyJ");
    assert_eq!(h.take_commands(), vec![Command::Press("A".to_string())]);
    assert_eq!(h.keys_held(), &vec!["J".to_string()]);
}

#[test]
fn button_press_and_release() {
    let mut h = handler();
    h.on_press("KeyJ");
    h.on_release("KeyJ");
    assert_eq!(lines(&mut h), vec!["PRESS A\n", "RELEASE A\n"]);
    assert!(h.keys_held().is_empty());
}

#[test]
fn trigger_press_and_release() {
    let mut h = handler();
    h.on_press("KeyQ");
    h.on_release("KeyQ");
    assert_eq!(lines(&mut h), vec!["PRESS L\n", "RELEASE L\n"]);
    assert!(h.keys_held().is_empty());
}

#[test]
fn space_key_presses_its_button() {
    let mut h = handler();
    h.on_press("Space");
    h.on_release("Space");
    assert_eq!(lines(&mut h), vec!["PRESS Z\n", "RELEASE Z\n"]);
}

#[test]
fn release_of_opposite_snaps_back() {
    let mut h = handler();
    h.on_press("KeyA");
    h.on_press("KeyD");
    h.on_release("KeyD");
    assert_eq!(lines(&mut h), vec!["SET MAIN 0 0.5\n", "SET MAIN 1 0.5\n", "SET MAIN 0 0.5\n"]);
    assert_eq!(h.controller().control_stick().x, -1);
    h.on_release("KeyA");
    assert_eq!(lines(&mut h), vec!["SET MAIN 0.5 0.5\n"]);
}

#[test]
fn vertical_release_snaps_back() {
    let mut h = handler();
    h.on_press("KeyW");
    h.on_press("KeyS");
    h.on_release("KeyS");
    assert_eq!(lines(&mut h), vec!["SET MAIN 0.5 1\n", "SET MAIN 0.5 0\n", "SET MAIN 0.5 1\n"]);
}

#[test]
fn horizontal_modifier_scales_and_restores() {
    let mut h = handler();
    h.on_press("ShiftLeft");
    h.on_press("KeyD");
    h.on_release("ShiftLeft");
    assert_eq!(lines(&mut h), vec!["SET MAIN 0.5 0.5\n", "SET MAIN 0.75 0.5\n", "SET MAIN 1 0.5\n"]);
}

#[test]
fn vertical_modifier_uses_up_and_down_factors() {
    let mut h = handler();
    h.on_press("Alt");
    h.on_press("KeyS");
    h.on_release("KeyS");
    h.on_press("KeyW");
    assert_eq!(
        lines(&mut h),
        vec!["SET MAIN 0.5 0.5\n", "SET MAIN 0.5 0.35\n", "SET MAIN 0.5 0.5\n", "SET MAIN 0.5 0.85\n"]
    );
}

#[test]
fn c_stick_ignores_modifiers() {
    let mut plain = handler();
    plain.on_press("KeyI");
    let without = plain.take_commands();
    let mut h = handler();
    h.on_press("ShiftLeft");
    h.on_press("Alt");
    h.take_commands();
    h.on_press("KeyI");
    let with = h.take_commands();
    assert_eq!(with, without);
    assert_eq!(with, vec![Command::SetStick(StickKind::C, 5_000_000, 10_000_000)]);
}

#[test]
fn c_stick_release_centres_without_snap_back() {
    let mut h = handler();
    h.on_press("KeyU");
    h.on_press("KeyO");
    h.on_release("KeyO");
    assert_eq!(lines(&mut h), vec!["SET C 0 0.5\n", "SET C 1 0.5\n", "SET C 0.5 0.5\n"]);
}

#[test]
fn unbound_key_sends_nothing() {
    let mut h = handler();
    h.on_press("KeyP");
    h.on_release("KeyP");
    assert!(h.take_commands().is_empty());
    assert!(h.keys_held().is_empty());
}

#[test]
fn release_without_press_still_releases() {
    let mut h = handler();
    h.on_release("KeyH");
    assert_eq!(lines(&mut h), vec!["RELEASE B\n"]);
    assert!(h.keys_held().is_empty());
}

#[test]
fn held_keys_keep_press_order() {
    let mut h = handler();
    h.on_press("KeyW");
    h.on_press("KeyP");
    h.on_press("KeyW");
    h.on_press("Space");
    assert_eq!(h.keys_held(), &vec!["W".to_string(), "P".to_string(), " ".to_string()]);
    h.on_release("KeyP");
    assert_eq!(h.keys_held(), &vec!["W".to_string(), " ".to_string()]);
}
