use macboxx::{Command, Controller, Direction, StickKind};

#[test]
fn main_stick_up_and_back() {
    let mut c = Controller::new(500_000, 500_000, 500_000);
    c.tilt_stick(StickKind::Control, Direction::Up);
    c.release_direction(StickKind::Control, Direction::Up);
    let lines: Vec<String> = c.take_commands().iter().map(|x| x.to_line()).collect();
    assert_eq!(lines, vec!["SET MAIN 0.5 1\n", "SET MAIN 0.5 0.5\n"]);
    assert_eq!(c.control_stick().y, 0);
}

#[test]
fn main_release_keeps_other_side() {
    let mut c = Controller::new(1_000_000, 1_000_000, 1_000_000);
    c.tilt_stick(StickKind::Control, Direction::Right);
    c.release_direction(StickKind::Control, Direction::Left);
    assert_eq!(c.control_stick().x, 1);
    c.release_direction(StickKind::Control, Direction::Right);
    assert_eq!(c.control_stick().x, 0);
}

#[test]
fn c_release_always_centres() {
    let mut c = Controller::new(1_000_000, 1_000_000, 1_000_000);
    c.tilt_stick(StickKind::C, Direction::Right);
    c.release_direction(StickKind::C, Direction::Left);
    assert_eq!(c.c_stick().x, 0);
}

#[test]
fn modifier_press_and_release() {
    let mut c = Controller::new(500_000, 1_000_000, 1_000_000);
    c.tilt_stick(StickKind::Control, Direction::Right);
    c.press_mod("MOD_X");
    assert!(c.mod_x());
    c.release_mod("MOD_X");
    assert!(!c.mod_x());
    assert_eq!(
        c.take_commands(),
        vec![
            Command::SetStick(StickKind::Control, 10_000_000, 5_000_000),
            Command::SetStick(StickKind::Control, 7_500_000, 5_000_000),
            Command::SetStick(StickKind::Control, 10_000_000, 5_000_000),
        ]
    );
}

#[test]
fn unknown_modifier_changes_no_flag() {
    let mut c = Controller::new(500_000, 500_000, 500_000);
    c.press_mod("MOD_Z");
    assert!(!c.mod_x());
    assert!(!c.mod_y());
    assert_eq!(c.take_commands(), vec![Command::SetStick(StickKind::Control, 5_000_000, 5_000_000)]);
}

#[test]
fn modifier_axis_names() {
    assert!(Controller::is_modifier_axis("MOD_X"));
    assert!(Controller::is_modifier_axis("MOD_Y"));
    assert!(!Controller::is_modifier_axis("MOD_Z"));
    assert!(!Controller::is_modifier_axis(""));
}

#[test]
fn buttons_and_triggers_send_lines() {
    let mut c = Controller::new(1_000_000, 1_000_000, 1_000_000);
    c.press_button("A");
    c.release_button("A");
    c.press_trigger("R");
    c.release_trigger("R");
    let lines: Vec<String> = c.take_commands().iter().map(|x| x.to_line()).collect();
    assert_eq!(lines, vec!["PRESS A\n", "RELEASE A\n", "PRESS R\n", "RELEASE R\n"]);
    assert!(c.take_commands().is_empty());
}

#[test]
fn write_stick_scales_down_factor() {
    let mut c = Controller::new(1_000_000, 800_000, 400_000);
    c.press_mod("MOD_Y");
    c.tilt_stick(StickKind::Control, Direction::Down);
    let s = c.control_stick();
    c.take_commands();
    c.write_stick(StickKind::Control, s);
    assert_eq!(c.take_commands(), vec![Command::SetStick(StickKind::Control, 5_000_000, 3_000_000)]);
}

#[test]
fn direction_names() {
    assert_eq!(Direction::from_string("UP"), Some(Direction::Up));
    assert_eq!(Direction::from_string("DOWN"), Some(Direction::Down));
    assert_eq!(Direction::from_string("LEFT"), Some(Direction::Left));
    assert_eq!(Direction::from_string("RIGHT"), Some(Direction::Right));
    assert_eq!(Direction::from_string("up"), None);
    assert_eq!(Direction::from_string(""), None);
    assert_eq!(Direction::Left.as_string(), "LEFT");
    assert_eq!(Direction::Down.as_string(), "DOWN");
    assert_eq!(Direction::Up.opposite(), Direction::Down);
    assert_eq!(Direction::Right.opposite(), Direction::Left);
    assert_eq!(StickKind::Control.as_string(), "MAIN");
    assert_eq!(StickKind::C.as_string(), "C");
}
