use vstd::prelude::*;

use crate::text::same_text;

verus! {

/// Section of the emulator's pad configuration for the first controller.
pub const PAD_SECTION: &'static str = "GCPad1";

/// Device entry that makes the first controller read from this program's pipe.
pub const PIPE_DEVICE: &'static str = "Pipe/0/macboxx";

/// The entries of the first controller's section that bind each control of the
/// pad to the commands this program sends.
pub open spec fn pad_entries() -> Seq<(Seq<char>, Seq<char>)> {
    seq![
        ("Device"@, "Pipe/0/macboxx"@),
        ("Buttons/A"@, "Button A"@),
        ("Buttons/B"@, "Button B"@),
        ("Buttons/X"@, "Button X"@),
        ("Buttons/Y"@, "Button Y"@),
        ("Buttons/Z"@, "Button Z"@),
        ("Buttons/L"@, "Button L"@),
        ("Buttons/R"@, "Button R"@),
        ("Buttons/Threshold"@, "50.00000000000000"@),
        ("Main Stick/Up"@, "Axis MAIN Y +"@),
        ("Main Stick/Down"@, "Axis MAIN Y -"@),
        ("Main Stick/Left"@, "Axis MAIN X -"@),
        ("Main Stick/Right"@, "Axis MAIN X +"@),
        ("Triggers/L"@, "Button L"@),
        ("Triggers/R"@, "Button R"@),
        ("Main Stick/Modifier"@, "Shift_L"@),
        ("Main Stick/Modifier/Range"@, "50.000000000000000"@),
        ("Main Stick/Radius"@, "100.000000000000000"@),
        ("D-Pad/Up"@, "Button D_UP"@),
        ("D-Pad/Down"@, "Button D_DOWN"@),
        ("D-Pad/Left"@, "Button D_LEFT"@),
        ("D-Pad/Right"@, "Button D_RIGHT"@),
        ("Buttons/Start"@, "Button START"@),
        ("C-Stick/Up"@, "Axis C Y +"@),
        ("C-Stick/Down"@, "Axis C Y -"@),
        ("C-Stick/Left"@, "Axis C X -"@),
        ("C-Stick/Right"@, "Axis C X +"@),
        ("C-Stick/Radius"@, "100.000000000000000"@),
        ("Triggers/L-Analog"@, "Axis L -+"@),
        ("Triggers/R-Analog"@, "Axis R -+"@),
        ("Triggers/Threshold"@, "90.00000000000000"@),
    ]
}

pub open spec fn entry_views(t: Seq<(String, String)>) -> Seq<(Seq<char>, Seq<char>)> {
    t.map_values(|e: (String, String)| (e.0@, e.1@))
}

/// The key and value of each entry to write in the first controller's section.
pub fn pad_settings() -> (r: Vec<(String, String)>)
    ensures
        entry_views(r@) == pad_entries(),
{
    let mut r: Vec<(String, String)> = Vec::new();
    r.push((String::from_str("Device"), String::from_str("Pipe/0/macboxx")));
    r.push((String::from_str("Buttons/A"), String::from_str("Button A")));
    r.push((String::from_str("Buttons/B"), String::from_str("Button B")));
    r.push((String::from_str("Buttons/X"), String::from_str("Button X")));
    r.push((String::from_str("Buttons/Y"), String::from_str("Button Y")));
    r.push((String::from_str("Buttons/Z"), String::from_str("Button Z")));
    r.push((String::from_str("Buttons/L"), String::from_str("Button L")));
    r.push((String::from_str("Buttons/R"), String::from_str("Button R")));
    r.push((String::from_str("Buttons/Threshold"), String::from_str("50.00000000000000")));
    r.push((String::from_str("Main Stick/Up"), String::from_str("Axis MAIN Y +")));
    r.push((String::from_str("Main Stick/Down"), String::from_str("Axis MAIN Y -")));
    r.push((String::from_str("Main Stick/Left"), String::from_str("Axis MAIN X -")));
    r.push((String::from_str("Main Stick/Right"), String::from_str("Axis MAIN X +")));
    r.push((String::from_str("Triggers/L"), String::from_str("Button L")));
    r.push((String::from_str("Triggers/R"), String::from_str("Button R")));
    r.push((String::from_str("Main Stick/Modifier"), String::from_str("Shift_L")));
    r.push((String::from_str("Main Stick/Modifier/Range"), String::from_str("50.000000000000000")));
    r.push((String::from_str("Main Stick/Radius"), String::from_str("100.000000000000000")));
    r.push((String::from_str("D-Pad/Up"), String::from_str("Button D_UP")));
    r.push((String::from_str("D-Pad/Down"), String::from_str("Button D_DOWN")));
    r.push((String::from_str("D-Pad/Left"), String::from_str("Button D_LEFT")));
    r.push((String::from_str("D-Pad/Right"), String::from_str("Button D_RIGHT")));
    r.push((String::from_str("Buttons/Start"), String::from_str("Button START")));
    r.push((String::from_str("C-Stick/Up"), String::from_str("Axis C Y +")));
    r.push((String::from_str("C-Stick/Down"), String::from_str("Axis C Y -")));
    r.push((String::from_str("C-Stick/Left"), String::from_str("Axis C X -")));
    r.push((String::from_str("C-Stick/Right"), String::from_str("Axis C X +")));
    r.push((String::from_str("C-Stick/Radius"), String::from_str("100.000000000000000")));
    r.push((String::from_str("Triggers/L-Analog"), String::from_str("Axis L -+")));
    r.push((String::from_str("Triggers/R-Analog"), String::from_str("Axis R -+")));
    r.push((String::from_str("Triggers/Threshold"), String::from_str("90.00000000000000")));
    assert(entry_views(r@) =~= pad_entries());
    r
}

/// Whether the first controller already reads from the pipe, given the device
/// entry of its section, if there is one.
pub fn is_configured(device: Option<&str>) -> (r: bool)
    ensures
        r == (device matches Some(d) && d@ == PIPE_DEVICE@),
{
    match device {
        Some(d) => same_text(d, PIPE_DEVICE),
        None => false,
    }
}

} // verus!
