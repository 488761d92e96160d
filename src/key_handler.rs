use vstd::prelude::*;

use crate::controller::{
    after_mod, after_release, after_tilt, emit, opposite_of, CommandView, Controller,
    ControllerView, Command, Direction, StickKind,
};
use crate::keycodes::{
    dir_index, find_direction, find_key, get_keycode, key_index, key_name, Keymap,
};

verus! {

/// The handler as a value: the names of the keys held, in the order they went
/// down, the controller they drive, and the keymap.
pub struct KeyHandlerView {
    pub held: Seq<Seq<char>>,
    pub controller: ControllerView,
    pub keymap: Keymap,
}

pub open spec fn names_of(v: Seq<String>) -> Seq<Seq<char>> {
    v.map_values(|s: String| s@)
}

/// Whether a key name is other than `name`.
pub open spec fn other_than(name: Seq<char>) -> spec_fn(Seq<char>) -> bool {
    |k: Seq<char>| k != name
}

/// `held` without the key `name`.
pub open spec fn without_name(held: Seq<Seq<char>>, name: Seq<char>) -> Seq<Seq<char>> {
    held.filter(other_than(name))
}

/// What pressing key `name` does to the controller: each table that binds
/// the key acts in turn (button, primary stick, secondary stick, trigger,
/// modifier).
pub open spec fn press_effects(km: Keymap, c: ControllerView, name: Seq<char>) -> ControllerView {
    let c1 = match key_index(km.buttons@, name) {
        Some(i) => emit(c, CommandView::Press(km.buttons@[i].1@)),
        None => c,
    };
    let c2 = match key_index(km.control_stick@, name) {
        Some(i) => after_tilt(c1, StickKind::Control, km.control_stick@[i].1),
        None => c1,
    };
    let c3 = match key_index(km.c_stick@, name) {
        Some(i) => after_tilt(c2, StickKind::C, km.c_stick@[i].1),
        None => c2,
    };
    let c4 = match key_index(km.triggers@, name) {
        Some(i) => emit(c3, CommandView::Press(km.triggers@[i].1@)),
        None => c3,
    };
    match key_index(km.mods@, name) {
        Some(i) => after_mod(c4, km.mods@[i].1@, true),
        None => c4,
    }
}

/// Whether the key bound to direction `d` of the primary stick is held.
pub open spec fn direction_held(km: Keymap, held: Seq<Seq<char>>, d: Direction) -> bool {
    match dir_index(km.control_stick@, d) {
        Some(j) => held.contains(km.control_stick@[j].0@),
        None => false,
    }
}

/// Letting go of direction `d` on the primary stick: while the key of the
/// opposite direction is still held the stick goes back to that direction,
/// else the direction is released.
pub open spec fn control_release(
    km: Keymap,
    held: Seq<Seq<char>>,
    c: ControllerView,
    d: Direction,
) -> ControllerView {
    if direction_held(km, held, opposite_of(d)) {
        after_tilt(c, StickKind::Control, opposite_of(d))
    } else {
        after_release(c, StickKind::Control, d)
    }
}

/// What releasing key `name` does to the controller, `held` being the keys
/// still held after it.
pub open spec fn release_effects(
    km: Keymap,
    held: Seq<Seq<char>>,
    c: ControllerView,
    name: Seq<char>,
) -> ControllerView {
    let c1 = match key_index(km.buttons@, name) {
        Some(i) => emit(c, CommandView::Release(km.buttons@[i].1@)),
        None => c,
    };
    let c2 = match key_index(km.control_stick@, name) {
        Some(i) => control_release(km, held, c1, km.control_stick@[i].1),
        None => c1,
    };
    let c3 = match key_index(km.c_stick@, name) {
        Some(i) => after_release(c2, StickKind::C, km.c_stick@[i].1),
        None => c2,
    };
    let c4 = match key_index(km.triggers@, name) {
        Some(i) => emit(c3, CommandView::Release(km.triggers@[i].1@)),
        None => c3,
    };
    match key_index(km.mods@, name) {
        Some(i) => after_mod(c4, km.mods@[i].1@, false),
        None => c4,
    }
}

/// The handler after the key with hook label `label` goes down: nothing
/// changes while the key is already held.
pub open spec fn pressed(h: KeyHandlerView, label: Seq<char>) -> KeyHandlerView {
    let name = key_name(label);
    if h.held.contains(name) {
        h
    } else {
        KeyHandlerView {
            held: h.held.push(name),
            controller: press_effects(h.keymap, h.controller, name),
            ..h
        }
    }
}

/// The handler after the key with hook label `label` comes up.
pub open spec fn released_key(h: KeyHandlerView, label: Seq<char>) -> KeyHandlerView {
    let name = key_name(label);
    let held = without_name(h.held, name);
    KeyHandlerView { held, controller: release_effects(h.keymap, held, h.controller, name), ..h }
}

/// Drives a controller from key events through a keymap.
pub struct KeyHandler {
    keys_held: Vec<String>,
    controller: Controller,
    keymap: Keymap,
}

impl View for KeyHandler {
    type V = KeyHandlerView;

    closed spec fn view(&self) -> KeyHandlerView {
        KeyHandlerView {
            held: names_of(self.keys_held@),
            controller: self.controller@,
            keymap: self.keymap,
        }
    }
}

fn is_held(keys: &Vec<String>, name: &String) -> (r: bool)
    ensures
        r == names_of(keys@).contains(name@),
{
    let mut i: usize = 0;
    while i < keys.len()
        invariant
            0 <= i <= keys@.len(),
            forall|j: int| 0 <= j < i ==> #[trigger] keys@[j]@ != name@,
        decreases keys@.len() - i,
    {
        if keys[i] == *name {
            assert(names_of(keys@)[i as int] == name@);
            return true;
        }
        i = i + 1;
    }
    assert(!names_of(keys@).contains(name@)) by {
        if names_of(keys@).contains(name@) {
            let j = choose|j: int| 0 <= j < keys@.len() && names_of(keys@)[j] == name@;
            assert(keys@[j]@ == name@);
        }
    }
    false
}

fn remove_name(keys: &Vec<String>, name: &String) -> (r: Vec<String>)
    ensures
        names_of(r@) == without_name(names_of(keys@), name@),
{
    let mut r: Vec<String> = Vec::new();
    let mut i: usize = 0;
    while i < keys.len()
        invariant
            0 <= i <= keys@.len(),
            names_of(r@) == without_name(names_of(keys@.subrange(0, i as int)), name@),
        decreases keys@.len() - i,
    {
        let ghost before = keys@.subrange(0, i as int);
        let ghost after = keys@.subrange(0, i + 1);
        proof {
            assert(names_of(after).drop_last() =~= names_of(before));
            assert(names_of(after).last() == keys@[i as int]@);
            reveal(Seq::filter);
        }
        if keys[i] != *name {
            r.push(keys[i].clone());
            assert(names_of(r@) =~= without_name(names_of(after), name@));
        } else {
            assert(names_of(r@) =~= without_name(names_of(after), name@));
        }
        i = i + 1;
    }
    assert(keys@.subrange(0, keys@.len() as int) =~= keys@);
    r
}

impl KeyHandler {
    /// A handler with no key held.
    pub fn new(controller: Controller, keymap: Keymap) -> (r: KeyHandler)
        ensures
            r@ == (KeyHandlerView { held: seq![], controller: controller@, keymap }),
    {
        let r = KeyHandler { keys_held: Vec::new(), controller, keymap };
        assert(names_of(r.keys_held@) =~= seq![]);
        r
    }

    /// The key with hook label `key` goes down.
    pub fn on_press(&mut self, key: &str)
        ensures
            final(self)@ == pressed(old(self)@, key@),
    {
        let key_str = get_keycode(key);
        if is_held(&self.keys_held, &key_str) {
            return ;
        }
        let ghost held0 = self.keys_held@;
        self.keys_held.push(key_str.clone());
        assert(names_of(self.keys_held@) =~= names_of(held0).push(key_str@));
        if let Some(i) = find_key(&self.keymap.buttons, key_str.as_str()) {
            self.controller.press_button(self.keymap.buttons[i].1.as_str());
        }
        if let Some(i) = find_key(&self.keymap.control_stick, key_str.as_str()) {
            self.controller.tilt_stick(StickKind::Control, self.keymap.control_stick[i].1);
        }
        if let Some(i) = find_key(&self.keymap.c_stick, key_str.as_str()) {
            self.controller.tilt_stick(StickKind::C, self.keymap.c_stick[i].1);
        }
        if let Some(i) = find_key(&self.keymap.triggers, key_str.as_str()) {
            self.controller.press_trigger(self.keymap.triggers[i].1.as_str());
        }
        if let Some(i) = find_key(&self.keymap.mods, key_str.as_str()) {
            self.controller.press_mod(self.keymap.mods[i].1.as_str());
        }
    }

    /// The key with hook label `key` comes up; a key that was not held is
    /// let go of all the same.
    pub fn on_release(&mut self, key: &str)
        ensures
            final(self)@ == released_key(old(self)@, key@),
    {
        let key_str = get_keycode(key);
        self.keys_held = remove_name(&self.keys_held, &key_str);
        if let Some(i) = find_key(&self.keymap.buttons, key_str.as_str()) {
            self.controller.release_button(self.keymap.buttons[i].1.as_str());
        }
        if let Some(i) = find_key(&self.keymap.control_stick, key_str.as_str()) {
            let dir = self.keymap.control_stick[i].1;
            let opposite = dir.opposite();
            let snap_back = match find_direction(&self.keymap.control_stick, opposite) {
                Some(j) => is_held(&self.keys_held, &self.keymap.control_stick[j].0),
                None => false,
            };
            if snap_back {
                self.controller.tilt_stick(StickKind::Control, opposite);
            } else {
                self.controller.release_direction(StickKind::Control, dir);
            }
        }
        if let Some(i) = find_key(&self.keymap.c_stick, key_str.as_str()) {
            self.controller.release_direction(StickKind::C, self.keymap.c_stick[i].1);
        }
        if let Some(i) = find_key(&self.keymap.triggers, key_str.as_str()) {
            self.controller.release_trigger(self.keymap.triggers[i].1.as_str());
        }
        if let Some(i) = find_key(&self.keymap.mods, key_str.as_str()) {
            self.controller.release_mod(self.keymap.mods[i].1.as_str());
        }
    }

    /// Hands out the commands sent since the last call, oldest first.
    pub fn take_commands(&mut self) -> (r: Vec<Command>)
        ensures
            crate::controller::views_of(r@) == old(self)@.controller.sent,
            final(self)@ == (KeyHandlerView {
                controller: ControllerView { sent: seq![], ..old(self)@.controller },
                ..old(self)@
            }),
    {
        self.controller.take_commands()
    }

    /// Names of the keys held, in the order they went down.
    pub fn keys_held(&self) -> (r: &Vec<String>)
        ensures
            names_of(r@) == self@.held,
    {
        &self.keys_held
    }

    pub fn controller(&self) -> (r: &Controller)
        ensures
            r@ == self@.controller,
    {
        &self.controller
    }
}

proof fn lemma_without_absent(held: Seq<Seq<char>>, name: Seq<char>)
    requires
        !held.contains(name),
    ensures
        without_name(held, name) == held,
    decreases held.len(),
{
    reveal(Seq::filter);
    if held.len() > 0 {
        assert(!held.drop_last().contains(name)) by {
            if held.drop_last().contains(name) {
                let j = choose|j: int| 0 <= j < held.drop_last().len() && held.drop_last()[j] == name;
                assert(held[j] == name);
            }
        }
        lemma_without_absent(held.drop_last(), name);
        assert(held.last() != name) by {
            assert(held[held.len() - 1] == held.last());
        }
        assert(held.drop_last().push(held.last()) =~= held);
    }
}

proof fn lemma_pushed_contains(held: Seq<Seq<char>>, name: Seq<char>)
    ensures
        held.push(name).contains(name),
{
    assert(held.push(name)[held.len() as int] == name);
}

proof fn lemma_without_pushed(held: Seq<Seq<char>>, name: Seq<char>)
    requires
        !held.contains(name),
    ensures
        without_name(held.push(name), name) == held,
{
    reveal(Seq::filter);
    assert(held.push(name).drop_last() =~= held);
    lemma_without_absent(held, name);
}

proof fn lemma_without_keeps(held: Seq<Seq<char>>, name: Seq<char>, other: Seq<char>)
    requires
        held.contains(other),
        other != name,
    ensures
        without_name(held, name).contains(other),
{
    let j = choose|j: int| 0 <= j < held.len() && held[j] == other;
    held.lemma_filter_contains(other_than(name), j);
}

proof fn lemma_without_distinct(held: Seq<Seq<char>>, name: Seq<char>)
    requires
        held.no_duplicates(),
    ensures
        without_name(held, name).no_duplicates(),
    decreases held.len(),
{
    reveal(Seq::filter);
    if held.len() > 0 {
        let rest = held.drop_last();
        assert(rest.no_duplicates()) by {
            assert forall|i: int, j: int| 0 <= i < rest.len() && 0 <= j < rest.len() && i != j
                implies rest[i] != rest[j] by {
                assert(rest[i] == held[i] && rest[j] == held[j]);
            }
        }
        lemma_without_distinct(rest, name);
        let w = without_name(rest, name);
        if held.last() != name {
            assert(!w.contains(held.last())) by {
                if w.contains(held.last()) {
                    rest.lemma_filter_contains_rev(other_than(name), held.last());
                    let j = choose|j: int| 0 <= j < rest.len() && rest[j] == held.last();
                    assert(held[j] == held[held.len() - 1]);
                }
            }
            assert(w.push(held.last()).no_duplicates()) by {
                assert forall|i: int, j: int|
                    0 <= i < w.push(held.last()).len() && 0 <= j < w.push(held.last()).len() && i
                        != j implies w.push(held.last())[i] != w.push(held.last())[j] by {
                    if i < w.len() && j < w.len() {
                        assert(w[i] != w[j]);
                    } else if i < w.len() {
                        assert(w.contains(w[i]));
                    } else {
                        assert(w.contains(w[j]));
                    }
                }
            }
        }
    }
}

/// Pressing a key that is already down changes nothing: pressing a key twice
/// without letting go of it sends what one press sends.
pub proof fn press_is_idempotent(h: KeyHandlerView, label: Seq<char>)
    ensures
        pressed(pressed(h, label), label) == pressed(h, label),
{
    lemma_pushed_contains(h.held, key_name(label));
}

/// The tables of a keymap that bind key `name`: none but the buttons.
pub open spec fn bound_to_button_only(km: Keymap, name: Seq<char>) -> bool {
    &&& key_index(km.buttons@, name) is Some
    &&& key_index(km.control_stick@, name) is None
    &&& key_index(km.c_stick@, name) is None
    &&& key_index(km.triggers@, name) is None
    &&& key_index(km.mods@, name) is None
}

/// The tables of a keymap that bind key `name`: none but the triggers.
pub open spec fn bound_to_trigger_only(km: Keymap, name: Seq<char>) -> bool {
    &&& key_index(km.buttons@, name) is None
    &&& key_index(km.control_stick@, name) is None
    &&& key_index(km.c_stick@, name) is None
    &&& key_index(km.triggers@, name) is Some
    &&& key_index(km.mods@, name) is None
}

/// A key bound to a button alone, pressed and let go of while it was not
/// held, sends one press and then one release of that button, leaves the
/// held keys as they were, and changes nothing else.
pub proof fn button_press_then_release(h: KeyHandlerView, label: Seq<char>)
    requires
        !h.held.contains(key_name(label)),
        bound_to_button_only(h.keymap, key_name(label)),
    ensures
        released_key(pressed(h, label), label).held == h.held,
        released_key(pressed(h, label), label).controller == (ControllerView {
            sent: h.controller.sent + seq![
                CommandView::Press(
                    h.keymap.buttons@[key_index(h.keymap.buttons@, key_name(label))->Some_0].1@,
                ),
                CommandView::Release(
                    h.keymap.buttons@[key_index(h.keymap.buttons@, key_name(label))->Some_0].1@,
                ),
            ],
            ..h.controller
        }),
{
    lemma_without_pushed(h.held, key_name(label));
    let r = released_key(pressed(h, label), label).controller;
    assert(r.sent =~= h.controller.sent + seq![
        CommandView::Press(
            h.keymap.buttons@[key_index(h.keymap.buttons@, key_name(label))->Some_0].1@,
        ),
        CommandView::Release(
            h.keymap.buttons@[key_index(h.keymap.buttons@, key_name(label))->Some_0].1@,
        ),
    ]);
}

/// A key bound to a trigger alone, pressed and let go of while it was not
/// held, sends one press and then one release of that trigger, leaves the
/// held keys as they were, and changes nothing else.
pub proof fn trigger_press_then_release(h: KeyHandlerView, label: Seq<char>)
    requires
        !h.held.contains(key_name(label)),
        bound_to_trigger_only(h.keymap, key_name(label)),
    ensures
        released_key(pressed(h, label), label).held == h.held,
        released_key(pressed(h, label), label).controller == (ControllerView {
            sent: h.controller.sent + seq![
                CommandView::Press(
                    h.keymap.triggers@[key_index(h.keymap.triggers@, key_name(label))->Some_0].1@,
                ),
                CommandView::Release(
                    h.keymap.triggers@[key_index(h.keymap.triggers@, key_name(label))->Some_0].1@,
                ),
            ],
            ..h.controller
        }),
{
    lemma_without_pushed(h.held, key_name(label));
    let r = released_key(pressed(h, label), label).controller;
    assert(r.sent =~= h.controller.sent + seq![
        CommandView::Press(
            h.keymap.triggers@[key_index(h.keymap.triggers@, key_name(label))->Some_0].1@,
        ),
        CommandView::Release(
            h.keymap.triggers@[key_index(h.keymap.triggers@, key_name(label))->Some_0].1@,
        ),
    ]);
}

/// Letting go of a direction key of the primary stick while the key bound to
/// the opposite direction is still held pushes the stick back toward that
/// opposite direction, rather than centring it; for a key bound to nothing
/// else, that push is all that happens.
pub proof fn opposite_direction_snaps_back(h: KeyHandlerView, label: Seq<char>)
    requires
        key_index(h.keymap.control_stick@, key_name(label)) is Some,
        dir_index(
            h.keymap.control_stick@,
            opposite_of(
                h.keymap.control_stick@[key_index(
                    h.keymap.control_stick@,
                    key_name(label),
                )->Some_0].1,
            ),
        ) is Some,
        h.held.contains(
            h.keymap.control_stick@[dir_index(
                h.keymap.control_stick@,
                opposite_of(
                    h.keymap.control_stick@[key_index(
                        h.keymap.control_stick@,
                        key_name(label),
                    )->Some_0].1,
                ),
            )->Some_0].0@,
        ),
        h.keymap.control_stick@[dir_index(
            h.keymap.control_stick@,
            opposite_of(
                h.keymap.control_stick@[key_index(
                    h.keymap.control_stick@,
                    key_name(label),
                )->Some_0].1,
            ),
        )->Some_0].0@ != key_name(label),
    ensures
        released_key(h, label).controller.control == crate::controller::tilted(
            h.controller.control,
            opposite_of(
                h.keymap.control_stick@[key_index(
                    h.keymap.control_stick@,
                    key_name(label),
                )->Some_0].1,
            ),
        ),
        key_index(h.keymap.buttons@, key_name(label)) is None && key_index(
            h.keymap.c_stick@,
            key_name(label),
        ) is None && key_index(h.keymap.triggers@, key_name(label)) is None && key_index(
            h.keymap.mods@,
            key_name(label),
        ) is None ==> released_key(h, label).controller == after_tilt(
            h.controller,
            StickKind::Control,
            opposite_of(
                h.keymap.control_stick@[key_index(
                    h.keymap.control_stick@,
                    key_name(label),
                )->Some_0].1,
            ),
        ),
{
    let name = key_name(label);
    let km = h.keymap;
    let d = km.control_stick@[key_index(km.control_stick@, name)->Some_0].1;
    let j = dir_index(km.control_stick@, opposite_of(d))->Some_0;
    lemma_without_keeps(h.held, name, km.control_stick@[j].0@);
}

/// A key that no table of the keymap binds sends nothing and leaves the
/// controller as it was, when pressed and when let go of.
pub proof fn unbound_key_sends_nothing(h: KeyHandlerView, label: Seq<char>)
    requires
        key_index(h.keymap.buttons@, key_name(label)) is None,
        key_index(h.keymap.control_stick@, key_name(label)) is None,
        key_index(h.keymap.c_stick@, key_name(label)) is None,
        key_index(h.keymap.triggers@, key_name(label)) is None,
        key_index(h.keymap.mods@, key_name(label)) is None,
    ensures
        pressed(h, label).controller == h.controller,
        released_key(h, label).controller == h.controller,
        released_key(pressed(h, label), label).controller == h.controller,
{
}

/// No key name is held twice: pressing and letting go of keys keep the held
/// keys free of repeats.
pub proof fn held_keys_stay_distinct(h: KeyHandlerView, label: Seq<char>)
    requires
        h.held.no_duplicates(),
    ensures
        pressed(h, label).held.no_duplicates(),
        released_key(h, label).held.no_duplicates(),
        !released_key(h, label).held.contains(key_name(label)),
{
    let name = key_name(label);
    lemma_without_distinct(h.held, name);
    if !h.held.contains(name) {
        let p = h.held.push(name);
        assert forall|i: int, j: int| 0 <= i < p.len() && 0 <= j < p.len() && i != j implies p[i]
            != p[j] by {
            if i < h.held.len() && j < h.held.len() {
            } else if i < h.held.len() {
                assert(h.held.contains(p[i]));
            } else {
                assert(h.held.contains(p[j]));
            }
        }
    }
    if without_name(h.held, name).contains(name) {
        let j = choose|j: int|
            0 <= j < without_name(h.held, name).len() && without_name(h.held, name)[j] == name;
        h.held.lemma_filter_pred(other_than(name), j);
    }
}

} // verus!
