use vstd::prelude::*;

use crate::text::{decimal, decimal_text, same_text};

verus! {

/// One of the two analog sticks of the virtual controller.
#[derive(Debug, Clone, Copy, PartialEq, Eq, Structural)]
pub enum StickKind {
    Control,
    C,
}

/// Name of a stick on the wire.
pub open spec fn stick_name(s: StickKind) -> Seq<char> {
    match s {
        StickKind::Control => "MAIN"@,
        StickKind::C => "C"@,
    }
}

impl StickKind {
    pub fn as_string(&self) -> (r: String)
        ensures
            r@ == stick_name(*self),
    {
        match self {
            StickKind::Control => String::from_str("MAIN"),
            StickKind::C => String::from_str("C"),
        }
    }
}

/// A direction in which a stick is pushed.
#[derive(Debug, Clone, Copy, PartialEq, Eq, Structural)]
pub enum Direction {
    Up,
    Down,
    Left,
    Right,
}

/// Name of a direction in a keymap.
pub open spec fn direction_name(d: Direction) -> Seq<char> {
    match d {
        Direction::Up => "UP"@,
        Direction::Down => "DOWN"@,
        Direction::Left => "LEFT"@,
        Direction::Right => "RIGHT"@,
    }
}

/// The direction a keymap names, if any.
pub open spec fn direction_of(s: Seq<char>) -> Option<Direction> {
    if s == "UP"@ {
        Some(Direction::Up)
    } else if s == "DOWN"@ {
        Some(Direction::Down)
    } else if s == "LEFT"@ {
        Some(Direction::Left)
    } else if s == "RIGHT"@ {
        Some(Direction::Right)
    } else {
        None
    }
}

pub open spec fn opposite_of(d: Direction) -> Direction {
    match d {
        Direction::Up => Direction::Down,
        Direction::Down => Direction::Up,
        Direction::Left => Direction::Right,
        Direction::Right => Direction::Left,
    }
}

impl Direction {
    pub fn as_string(&self) -> (r: String)
        ensures
            r@ == direction_name(*self),
    {
        match self {
            Direction::Up => String::from_str("UP"),
            Direction::Down => String::from_str("DOWN"),
            Direction::Left => String::from_str("LEFT"),
            Direction::Right => String::from_str("RIGHT"),
        }
    }

    pub fn opposite(self) -> (r: Direction)
        ensures
            r == opposite_of(self),
    {
        match self {
            Direction::Up => Direction::Down,
            Direction::Down => Direction::Up,
            Direction::Left => Direction::Right,
            Direction::Right => Direction::Left,
        }
    }

    /// Reads a direction name; `None` for any other text.
    pub fn from_string(s: &str) -> (r: Option<Direction>)
        ensures
            r == direction_of(s@),
    {
        if same_text(s, "UP") {
            Some(Direction::Up)
        } else if same_text(s, "DOWN") {
            Some(Direction::Down)
        } else if same_text(s, "LEFT") {
            Some(Direction::Left)
        } else if same_text(s, "RIGHT") {
            Some(Direction::Right)
        } else {
            None
        }
    }
}

/// A command on the wire to the emulator.
#[derive(Debug, PartialEq, Eq)]
pub enum Command {
    /// A button or trigger goes down.
    Press(String),
    /// A button or trigger comes up.
    Release(String),
    /// A stick's position; each axis in ten-millionths of the range `[0, 1]`.
    SetStick(StickKind, i64, i64),
}

/// The mathematical content of a command.
pub enum CommandView {
    Press(Seq<char>),
    Release(Seq<char>),
    SetStick(StickKind, int, int),
}

impl View for Command {
    type V = CommandView;

    open spec fn view(&self) -> CommandView {
        match self {
            Command::Press(n) => CommandView::Press(n@),
            Command::Release(n) => CommandView::Release(n@),
            Command::SetStick(k, x, y) => CommandView::SetStick(*k, *x as int, *y as int),
        }
    }
}

/// The line that carries a command: `PRESS <name>`, `RELEASE <name>` or
/// `SET <stick> <x> <y>`, ended by a newline.
pub open spec fn line_of(c: CommandView) -> Seq<char> {
    match c {
        CommandView::Press(n) => "PRESS "@ + n + "\n"@,
        CommandView::Release(n) => "RELEASE "@ + n + "\n"@,
        CommandView::SetStick(k, x, y) => "SET "@ + stick_name(k) + " "@ + decimal(x) + " "@
            + decimal(y) + "\n"@,
    }
}

impl Command {
    /// The line of the wire protocol for this command.
    pub fn to_line(&self) -> (r: String)
        ensures
            r@ == line_of(self@),
    {
        match self {
            Command::Press(n) => {
                let mut out = String::from_str("PRESS ");
                out.append(n.as_str());
                out.append("\n");
                out
            },
            Command::Release(n) => {
                let mut out = String::from_str("RELEASE ");
                out.append(n.as_str());
                out.append("\n");
                out
            },
            Command::SetStick(k, x, y) => {
                let mut out = String::from_str("SET ");
                let name = k.as_string();
                out.append(name.as_str());
                out.append(" ");
                let xs = decimal_text(*x);
                out.append(xs.as_str());
                out.append(" ");
                let ys = decimal_text(*y);
                out.append(ys.as_str());
                out.append("\n");
                out
            },
        }
    }
}

/// A stick's deflection on each axis: `-1`, `0` or `1`.
#[derive(Debug, Clone, Copy, PartialEq, Eq, Structural)]
pub struct Stick {
    pub x: i8,
    pub y: i8,
}

pub open spec fn pos(s: Stick) -> (int, int) {
    (s.x as int, s.y as int)
}

/// A speed factor of one, in millionths.
pub const FACTOR_ONE: i32 = 1_000_000;

/// The controller as the emulator should see it, and the commands sent so far.
pub struct ControllerView {
    pub control: (int, int),
    pub c: (int, int),
    pub mod_x: bool,
    pub mod_y: bool,
    pub factor_x: int,
    pub factor_up: int,
    pub factor_down: int,
    pub sent: Seq<CommandView>,
}

/// The value on the wire, in ten-millionths, for a deflection `d` scaled by
/// `factor` millionths: `(d * factor + 1) / 2`.
pub open spec fn axis_out(d: int, factor: int) -> int {
    5 * (FACTOR_ONE as int + d * factor)
}

/// Factor applied to the primary stick's horizontal axis.
pub open spec fn x_factor(v: ControllerView) -> int {
    if v.mod_x {
        v.factor_x
    } else {
        FACTOR_ONE as int
    }
}

/// Factor applied to the primary stick's vertical axis: the one for down while
/// the stick points down, else the one for up, and only while the vertical
/// modifier is held.
pub open spec fn y_factor(v: ControllerView) -> int {
    if v.mod_y && v.control.1 < 0 {
        v.factor_down
    } else if v.mod_y {
        v.factor_up
    } else {
        FACTOR_ONE as int
    }
}

/// The command that reports stick `k` at position `s`.
pub open spec fn stick_command(v: ControllerView, k: StickKind, s: (int, int)) -> CommandView {
    match k {
        StickKind::Control => CommandView::SetStick(
            k,
            axis_out(s.0, x_factor(v)),
            axis_out(s.1, y_factor(v)),
        ),
        StickKind::C => CommandView::SetStick(
            k,
            axis_out(s.0, FACTOR_ONE as int),
            axis_out(s.1, FACTOR_ONE as int),
        ),
    }
}

pub open spec fn stick_of(v: ControllerView, k: StickKind) -> (int, int) {
    match k {
        StickKind::Control => v.control,
        StickKind::C => v.c,
    }
}

pub open spec fn with_stick(v: ControllerView, k: StickKind, s: (int, int)) -> ControllerView {
    match k {
        StickKind::Control => ControllerView { control: s, ..v },
        StickKind::C => ControllerView { c: s, ..v },
    }
}

pub open spec fn emit(v: ControllerView, c: CommandView) -> ControllerView {
    ControllerView { sent: v.sent.push(c), ..v }
}

/// `v` after it has reported where stick `k` stands.
pub open spec fn refreshed(v: ControllerView, k: StickKind) -> ControllerView {
    emit(v, stick_command(v, k, stick_of(v, k)))
}

/// Position after pushing a stick all the way in direction `d`.
pub open spec fn tilted(s: (int, int), d: Direction) -> (int, int) {
    match d {
        Direction::Up => (s.0, 1),
        Direction::Down => (s.0, -1),
        Direction::Left => (-1, s.1),
        Direction::Right => (1, s.1),
    }
}

/// Position after letting go of direction `d`: the axis returns to zero, but
/// on the primary stick a horizontal axis already pushed the other way stays.
pub open spec fn released(k: StickKind, s: (int, int), d: Direction) -> (int, int) {
    match d {
        Direction::Up => (s.0, 0),
        Direction::Down => (s.0, 0),
        Direction::Left => (
            if k == StickKind::Control && s.0 > 0 {
                s.0
            } else {
                0
            },
            s.1,
        ),
        Direction::Right => (
            if k == StickKind::Control && s.0 < 0 {
                s.0
            } else {
                0
            },
            s.1,
        ),
    }
}

pub open spec fn after_tilt(v: ControllerView, k: StickKind, d: Direction) -> ControllerView {
    refreshed(with_stick(v, k, tilted(stick_of(v, k), d)), k)
}

pub open spec fn after_release(v: ControllerView, k: StickKind, d: Direction) -> ControllerView {
    refreshed(with_stick(v, k, released(k, stick_of(v, k), d)), k)
}

/// Modifier flags after the modifier named `axis` goes to `active`; any name
/// but `MOD_X` and `MOD_Y` changes nothing.
pub open spec fn with_mod(v: ControllerView, axis: Seq<char>, active: bool) -> ControllerView {
    if axis == "MOD_X"@ {
        ControllerView { mod_x: active, ..v }
    } else if axis == "MOD_Y"@ {
        ControllerView { mod_y: active, ..v }
    } else {
        v
    }
}

pub open spec fn after_mod(v: ControllerView, axis: Seq<char>, active: bool) -> ControllerView {
    refreshed(with_mod(v, axis, active), StickKind::Control)
}

/// Both sticks have each axis in `[-1, 1]`.
pub open spec fn in_range(v: ControllerView) -> bool {
    -1 <= v.control.0 <= 1 && -1 <= v.control.1 <= 1 && -1 <= v.c.0 <= 1 && -1 <= v.c.1 <= 1
}

/// The virtual controller: stick positions, modifiers, and the commands that
/// report them, waiting to be written out.
pub struct Controller {
    control_stick: Stick,
    c_stick: Stick,
    mod_x: bool,
    mod_y: bool,
    mod_x_factor: i32,
    mod_up_factor: i32,
    mod_down_factor: i32,
    sent: Vec<Command>,
}

pub open spec fn views_of(cs: Seq<Command>) -> Seq<CommandView> {
    cs.map_values(|c: Command| c@)
}

impl View for Controller {
    type V = ControllerView;

    closed spec fn view(&self) -> ControllerView {
        ControllerView {
            control: pos(self.control_stick),
            c: pos(self.c_stick),
            mod_x: self.mod_x,
            mod_y: self.mod_y,
            factor_x: self.mod_x_factor as int,
            factor_up: self.mod_up_factor as int,
            factor_down: self.mod_down_factor as int,
            sent: views_of(self.sent@),
        }
    }
}

fn axis_value(d: i8, factor: i32) -> (r: i64)
    ensures
        r as int == axis_out(d as int, factor as int),
{
    let a: i64 = d as i64;
    let b: i64 = factor as i64;
    proof {
        assert(-128 * 0x8000_0000 <= a * b <= 128 * 0x8000_0000) by (nonlinear_arith)
            requires
                -128 <= a <= 127,
                -0x8000_0000 <= b <= 0x7fff_ffff,
        ;
    }
    let p: i64 = a * b;
    5 * (FACTOR_ONE as i64 + p)
}

fn tilt_position(s: Stick, d: Direction) -> (r: Stick)
    ensures
        pos(r) == tilted(pos(s), d),
{
    match d {
        Direction::Up => Stick { x: s.x, y: 1 },
        Direction::Down => Stick { x: s.x, y: -1 },
        Direction::Left => Stick { x: -1, y: s.y },
        Direction::Right => Stick { x: 1, y: s.y },
    }
}

fn release_position(k: StickKind, s: Stick, d: Direction) -> (r: Stick)
    ensures
        pos(r) == released(k, pos(s), d),
{
    let guard = match k {
        StickKind::Control => true,
        StickKind::C => false,
    };
    match d {
        Direction::Up => Stick { x: s.x, y: 0 },
        Direction::Down => Stick { x: s.x, y: 0 },
        Direction::Left => Stick {
            x: if guard && s.x > 0 {
                s.x
            } else {
                0
            },
            y: s.y,
        },
        Direction::Right => Stick {
            x: if guard && s.x < 0 {
                s.x
            } else {
                0
            },
            y: s.y,
        },
    }
}

impl Controller {
    /// A controller with both sticks centred, no modifier held, and the
    /// given speed factors in millionths.
    pub fn new(mod_x_factor: i32, mod_up_factor: i32, mod_down_factor: i32) -> (r: Controller)
        ensures
            r@ == (ControllerView {
                control: (0, 0),
                c: (0, 0),
                mod_x: false,
                mod_y: false,
                factor_x: mod_x_factor as int,
                factor_up: mod_up_factor as int,
                factor_down: mod_down_factor as int,
                sent: seq![],
            }),
    {
        let r = Controller {
            control_stick: Stick { x: 0, y: 0 },
            c_stick: Stick { x: 0, y: 0 },
            mod_x: false,
            mod_y: false,
            mod_x_factor,
            mod_up_factor,
            mod_down_factor,
            sent: Vec::new(),
        };
        assert(views_of(r.sent@) =~= seq![]);
        r
    }

    fn send(&mut self, c: Command)
        ensures
            final(self)@ == emit(old(self)@, c@),
    {
        self.sent.push(c);
        assert(views_of(self.sent@) =~= views_of(old(self).sent@).push(c@));
    }

    pub fn press_button(&mut self, button: &str)
        ensures
            final(self)@ == emit(old(self)@, CommandView::Press(button@)),
    {
        self.send(Command::Press(String::from_str(button)));
    }

    pub fn release_button(&mut self, button: &str)
        ensures
            final(self)@ == emit(old(self)@, CommandView::Release(button@)),
    {
        self.send(Command::Release(String::from_str(button)));
    }

    pub fn press_trigger(&mut self, trigger: &str)
        ensures
            final(self)@ == emit(old(self)@, CommandView::Press(trigger@)),
    {
        self.send(Command::Press(String::from_str(trigger)));
    }

    pub fn release_trigger(&mut self, trigger: &str)
        ensures
            final(self)@ == emit(old(self)@, CommandView::Release(trigger@)),
    {
        self.send(Command::Release(String::from_str(trigger)));
    }

    /// Reports stick `stick` at position `stick_data`, scaled by the
    /// modifiers that are held when it is the primary stick; which vertical
    /// factor applies follows where the primary stick itself points.
    pub fn write_stick(&mut self, stick: StickKind, stick_data: Stick)
        ensures
            final(self)@ == emit(old(self)@, stick_command(old(self)@, stick, pos(stick_data))),
    {
        match stick {
            StickKind::Control => {
                let fx: i32 = if self.mod_x {
                    self.mod_x_factor
                } else {
                    FACTOR_ONE
                };
                let fy: i32 = if self.mod_y && self.control_stick.y < 0 {
                    self.mod_down_factor
                } else if self.mod_y {
                    self.mod_up_factor
                } else {
                    FACTOR_ONE
                };
                let x = axis_value(stick_data.x, fx);
                let y = axis_value(stick_data.y, fy);
                self.send(Command::SetStick(stick, x, y));
            },
            StickKind::C => {
                let x = axis_value(stick_data.x, FACTOR_ONE);
                let y = axis_value(stick_data.y, FACTOR_ONE);
                self.send(Command::SetStick(stick, x, y));
            },
        }
    }

    /// Pushes a stick all the way in `direction` and reports it.
    pub fn tilt_stick(&mut self, stick: StickKind, direction: Direction)
        ensures
            final(self)@ == after_tilt(old(self)@, stick, direction),
    {
        match stick {
            StickKind::Control => {
                self.control_stick = tilt_position(self.control_stick, direction);
                let s = self.control_stick;
                self.write_stick(stick, s);
            },
            StickKind::C => {
                self.c_stick = tilt_position(self.c_stick, direction);
                let s = self.c_stick;
                self.write_stick(stick, s);
            },
        }
    }

    /// Lets go of `direction` on a stick and reports it.
    pub fn release_direction(&mut self, stick: StickKind, direction: Direction)
        ensures
            final(self)@ == after_release(old(self)@, stick, direction),
    {
        match stick {
            StickKind::Control => {
                self.control_stick = release_position(stick, self.control_stick, direction);
                let s = self.control_stick;
                self.write_stick(stick, s);
            },
            StickKind::C => {
                self.c_stick = release_position(stick, self.c_stick, direction);
                let s = self.c_stick;
                self.write_stick(stick, s);
            },
        }
    }

    /// Whether `axis` names one of the two modifiers.
    pub fn is_modifier_axis(axis: &str) -> (r: bool)
        ensures
            r == (axis@ == "MOD_X"@ || axis@ == "MOD_Y"@),
    {
        same_text(axis, "MOD_X") || same_text(axis, "MOD_Y")
    }

    fn set_mod(&mut self, axis: &str, active: bool)
        ensures
            final(self)@ == after_mod(old(self)@, axis@, active),
    {
        if same_text(axis, "MOD_X") {
            self.mod_x = active;
        } else if same_text(axis, "MOD_Y") {
            self.mod_y = active;
        }
        let s = self.control_stick;
        self.write_stick(StickKind::Control, s);
    }

    /// Holds the modifier named `axis` (`MOD_X` or `MOD_Y`; another name
    /// changes no flag) and reports the primary stick.
    pub fn press_mod(&mut self, axis: &str)
        ensures
            final(self)@ == after_mod(old(self)@, axis@, true),
    {
        self.set_mod(axis, true);
    }

    /// Lets go of the modifier named `axis` and reports the primary stick.
    pub fn release_mod(&mut self, axis: &str)
        ensures
            final(self)@ == after_mod(old(self)@, axis@, false),
    {
        self.set_mod(axis, false);
    }

    /// Hands out the commands sent since the last call, oldest first.
    pub fn take_commands(&mut self) -> (r: Vec<Command>)
        ensures
            views_of(r@) == old(self)@.sent,
            final(self)@ == (ControllerView { sent: seq![], ..old(self)@ }),
    {
        let mut r: Vec<Command> = Vec::new();
        core::mem::swap(&mut r, &mut self.sent);
        assert(views_of(self.sent@) =~= seq![]);
        r
    }

    pub fn control_stick(&self) -> (r: Stick)
        ensures
            pos(r) == self@.control,
    {
        self.control_stick
    }

    pub fn c_stick(&self) -> (r: Stick)
        ensures
            pos(r) == self@.c,
    {
        self.c_stick
    }

    pub fn mod_x(&self) -> (r: bool)
        ensures
            r == self@.mod_x,
    {
        self.mod_x
    }

    pub fn mod_y(&self) -> (r: bool)
        ensures
            r == self@.mod_y,
    {
        self.mod_y
    }
}

/// Position after pushing a stick in direction `d` and letting go of it.
pub open spec fn centred(s: (int, int), d: Direction) -> (int, int) {
    match d {
        Direction::Up => (s.0, 0),
        Direction::Down => (s.0, 0),
        Direction::Left => (0, s.1),
        Direction::Right => (0, s.1),
    }
}

/// Pushing a stick in a direction and letting go of it brings the axis of
/// that direction back to zero, leaves the other axis where it was, and
/// reports the stick at that position last. With the primary stick centred
/// horizontally and no modifier held, pushing it up and letting go reports
/// it at `0.5 0.5`.
pub proof fn tilt_then_release_centres(v: ControllerView, k: StickKind, d: Direction)
    ensures
        stick_of(after_release(after_tilt(v, k, d), k, d), k) == centred(stick_of(v, k), d),
        after_release(after_tilt(v, k, d), k, d).sent.last() == stick_command(
            after_release(after_tilt(v, k, d), k, d),
            k,
            centred(stick_of(v, k), d),
        ),
        k == StickKind::Control && d == Direction::Up && v.control.0 == 0 && !v.mod_x && !v.mod_y
            ==> after_release(after_tilt(v, k, d), k, d).sent.last() == CommandView::SetStick(
            StickKind::Control,
            5_000_000,
            5_000_000,
        ),
{
}

/// With the horizontal modifier held, pushing the primary stick right
/// reports its horizontal axis as `(factor + 1) / 2`; letting go of the
/// modifier with the stick still right reports it as `1`.
pub proof fn horizontal_modifier_scales(v: ControllerView)
    ensures
        after_tilt(after_mod(v, "MOD_X"@, true), StickKind::Control, Direction::Right).sent.last()
            == CommandView::SetStick(
            StickKind::Control,
            5 * (FACTOR_ONE as int + v.factor_x),
            axis_out(v.control.1, y_factor(v)),
        ),
        after_mod(
            after_tilt(after_mod(v, "MOD_X"@, true), StickKind::Control, Direction::Right),
            "MOD_X"@,
            false,
        ).sent.last() == CommandView::SetStick(
            StickKind::Control,
            10_000_000,
            axis_out(v.control.1, y_factor(v)),
        ),
{
    reveal_strlit("MOD_X");
    reveal_strlit("MOD_Y");
}

/// What the secondary stick reports, when pushed or let go of, does not
/// depend on the modifiers.
pub proof fn secondary_stick_ignores_modifiers(
    v: ControllerView,
    mod_x: bool,
    mod_y: bool,
    d: Direction,
)
    ensures
        after_tilt(ControllerView { mod_x, mod_y, ..v }, StickKind::C, d).sent.last() == after_tilt(
            v,
            StickKind::C,
            d,
        ).sent.last(),
        after_release(ControllerView { mod_x, mod_y, ..v }, StickKind::C, d).sent.last()
            == after_release(v, StickKind::C, d).sent.last(),
{
}

/// Pushing, letting go of a stick and holding or letting go of a modifier
/// keep every axis of both sticks in `[-1, 1]`.
pub proof fn steps_keep_range(v: ControllerView, k: StickKind, d: Direction, axis: Seq<char>, active: bool)
    requires
        in_range(v),
    ensures
        in_range(after_tilt(v, k, d)),
        in_range(after_release(v, k, d)),
        in_range(after_mod(v, axis, active)),
{
}

} // verus!
