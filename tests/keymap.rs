use macboxx::{setup_keymap, Direction, KeymapConfig, KeymapError, ModFactors};

fn pairs(entries: &[(&str, &str)]) -> Vec<(String, String)> {
    entries.iter().map(|(a, b)| (a.to_string(), b.to_string())).collect()
}

fn config(control_stick: &[(&str, &str)], buttons: &[(&str, &str)]) -> KeymapConfig {
    KeymapConfig {
        buttons: pairs(buttons),
        control_stick: pairs(control_stick),
        c_stick: pairs(&[("UP", "I")]),
        triggers: pairs(&[("L", "Q")]),
        mods: pairs(&[("MOD_X", "ShiftLeft")]),
        mod_factors: ModFactors { x: 500_000, up: 700_000, down: 300_000 },
    }
}

#[test]
fn keymap_is_turned_round() {
    let k = setup_keymap(&config(&[("UP", "W"), ("LEFT", "A")], &[("A", "J"), ("B", "H")])).unwrap();
    assert_eq!(k.buttons, pairs(&[("J", "A"), ("H", "B")]));
    assert_eq!(
        k.control_stick,
        vec![("W".to_string(), Direction::Up), ("A".to_string(), Direction::Left)]
    );
    assert_eq!(k.c_stick, vec![("I".to_string(), Direction::Up)]);
    assert_eq!(k.triggers, pairs(&[("Q", "L")]));
    assert_eq!(k.mods, pairs(&[("ShiftLeft", "MOD_X")]));
    assert_eq!(k.mod_factors, ModFactors { x: 500_000, up: 700_000, down: 300_000 });
}

#[test]
fn unknown_direction_is_refused() {
    let r = setup_keymap(&config(&[("UP", "W"), ("UPWARD", "E")], &[]));
    assert_eq!(r.err(), Some(KeymapError::UnknownDirection("UPWARD".to_string())));
}

#[test]
fn unknown_direction_comes_before_duplicate() {
    let r = setup_keymap(&config(&[("up", "W")], &[("A", "J"), ("B", "J")]));
    assert_eq!(r.err(), Some(KeymapError::UnknownDirection("up".to_string())));
}

#[test]
fn key_bound_twice_is_refused() {
    let r = setup_keymap(&config(&[("UP", "W")], &[("A", "J"), ("B", "J")]));
    assert_eq!(r.err(), Some(KeymapError::DuplicateKey("J".to_string())));
}

#[test]
fn direction_key_bound_twice_is_refused() {
    let r = setup_keymap(&config(&[("UP", "W"), ("DOWN", "W")], &[]));
    assert_eq!(r.err(), Some(KeymapError::DuplicateKey("W".to_string())));
}

#[test]
fn one_key_in_two_tables_is_allowed() {
    let k = setup_keymap(&config(&[("UP", "Q")], &[("A", "Q")])).unwrap();
    assert_eq!(k.buttons.len(), 1);
    assert_eq!(k.triggers[0].0, "Q");
}

#[test]
fn empty_keymap_is_accepted() {
    let c = KeymapConfig {
        buttons: vec![],
        control_stick: vec![],
        c_stick: vec![],
        triggers: vec![],
        mods: vec![],
        mod_factors: ModFactors { x: 0, up: 0, down: 0 },
    };
    let k = setup_keymap(&c).unwrap();
    assert!(k.buttons.is_empty() && k.control_stick.is_empty() && k.mods.is_empty());
}
