use vstd::prelude::*;

use crate::controller::{direction_of, Direction};
use crate::text::same_text;

verus! {

/// The character that names a punctuation or whitespace key, by the label of
/// the key in the input hook.
pub open spec fn punctuation_of(label: Seq<char>) -> Option<Seq<char>> {
    if label == "Space"@ {
        Some(" "@)
    } else if label == "BackQuote"@ {
        Some("`"@)
    } else if label == "Minus"@ {
        Some("-"@)
    } else if label == "Equal"@ {
        Some("="@)
    } else if label == "LeftBracket"@ {
        Some("["@)
    } else if label == "RightBracket"@ {
        Some("]"@)
    } else if label == "SemiColon"@ {
        Some(";"@)
    } else if label == "Quote"@ {
        Some("'"@)
    } else if label == "BackSlash"@ {
        Some("\\"@)
    } else if label == "IntlBackslash"@ {
        Some("\\"@)
    } else if label == "Comma"@ {
        Some(","@)
    } else if label == "Dot"@ {
        Some("."@)
    } else if label == "Slash"@ {
        Some("/"@)
    } else {
        None
    }
}

/// `s` with every occurrence of `Key` taken out, scanning from the left.
pub open spec fn without_key_word(s: Seq<char>) -> Seq<char>
    decreases s.len(),
{
    if s.len() >= 3 && s[0] == 'K' && s[1] == 'e' && s[2] == 'y' {
        without_key_word(s.subrange(3, s.len() as int))
    } else if s.len() == 0 {
        seq![]
    } else {
        seq![s[0]] + without_key_word(s.subrange(1, s.len() as int))
    }
}

/// The name under which a keymap binds the key with hook label `label`
/// (`KeyA` is `A`, `Space` is a blank).
pub open spec fn key_name(label: Seq<char>) -> Seq<char> {
    match punctuation_of(label) {
        Some(p) => p,
        None => without_key_word(label),
    }
}

fn remove_key_word(s: &str) -> (r: String)
    ensures
        r@ == without_key_word(s@),
{
    let n = s.unicode_len();
    let mut out = String::new();
    let mut i: usize = 0;
    assert(s@.subrange(0, n as int) =~= s@);
    assert(out@ + without_key_word(s@) =~= without_key_word(s@));
    while i < n
        invariant
            n == s@.len(),
            0 <= i <= n,
            out@ + without_key_word(s@.subrange(i as int, n as int)) == without_key_word(s@),
        decreases n - i,
    {
        let rest = Ghost(s@.subrange(i as int, n as int));
        if n - i >= 3 && s.get_char(i) == 'K' && s.get_char(i + 1) == 'e' && s.get_char(i + 2)
            == 'y' {
            assert(rest@.subrange(3, rest@.len() as int) =~= s@.subrange(i + 3, n as int));
            i = i + 3;
        } else {
            let c = s.substring_char(i, i + 1);
            assert(rest@.subrange(1, rest@.len() as int) =~= s@.subrange(i + 1, n as int));
            assert(c@ =~= seq![rest@[0]]);
            let ghost before = out@;
            out.append(c);
            assert(out@ + without_key_word(s@.subrange(i + 1, n as int)) =~= before
                + without_key_word(rest@));
            i = i + 1;
        }
    }
    assert(s@.subrange(n as int, n as int) =~= seq![]);
    out
}

/// Resolves the label of a key in the input hook (its variant name, such as
/// `KeyA` or `Space`) to the name under which a keymap binds it.
pub fn get_keycode(label: &str) -> (r: String)
    ensures
        r@ == key_name(label@),
{
    if same_text(label, "Space") {
        String::from_str(" ")
    } else if same_text(label, "BackQuote") {
        String::from_str("`")
    } else if same_text(label, "Minus") {
        String::from_str("-")
    } else if same_text(label, "Equal") {
        String::from_str("=")
    } else if same_text(label, "LeftBracket") {
        String::from_str("[")
    } else if same_text(label, "RightBracket") {
        String::from_str("]")
    } else if same_text(label, "SemiColon") {
        String::from_str(";")
    } else if same_text(label, "Quote") {
        String::from_str("'")
    } else if same_text(label, "BackSlash") {
        String::from_str("\\")
    } else if same_text(label, "IntlBackslash") {
        String::from_str("\\")
    } else if same_text(label, "Comma") {
        String::from_str(",")
    } else if same_text(label, "Dot") {
        String::from_str(".")
    } else if same_text(label, "Slash") {
        String::from_str("/")
    } else {
        remove_key_word(label)
    }
}

/// Speed factors for the primary stick, in millionths (`500_000` halves a
/// deflection).
#[derive(Debug, Clone, Copy, PartialEq, Eq, Structural)]
pub struct ModFactors {
    pub x: i32,
    pub up: i32,
    pub down: i32,
}

/// A keymap as it is written: in each table, a button name, direction,
/// trigger name or modifier name, paired with the name of the key bound to it.
pub struct KeymapConfig {
    pub buttons: Vec<(String, String)>,
    pub control_stick: Vec<(String, String)>,
    pub c_stick: Vec<(String, String)>,
    pub triggers: Vec<(String, String)>,
    pub mods: Vec<(String, String)>,
    pub mod_factors: ModFactors,
}

/// A checked keymap, looked up by key: in each table the name of a key paired
/// with what it does.
pub struct Keymap {
    pub buttons: Vec<(String, String)>,
    pub control_stick: Vec<(String, Direction)>,
    pub c_stick: Vec<(String, Direction)>,
    pub triggers: Vec<(String, String)>,
    pub mods: Vec<(String, String)>,
    pub mod_factors: ModFactors,
}

/// Why a keymap is refused.
#[derive(Debug, PartialEq, Eq)]
pub enum KeymapError {
    /// A stick table names a direction other than `UP`, `DOWN`, `LEFT`, `RIGHT`.
    UnknownDirection(String),
    /// One table binds the same key twice.
    DuplicateKey(String),
}

/// First index at or after `i` whose key is `k`.
pub open spec fn key_index_from<V>(t: Seq<(String, V)>, k: Seq<char>, i: int) -> Option<int>
    decreases t.len() - i,
{
    if i < 0 || i >= t.len() {
        None
    } else if t[i].0@ == k {
        Some(i)
    } else {
        key_index_from(t, k, i + 1)
    }
}

/// First index of a table whose key is `k`.
pub open spec fn key_index<V>(t: Seq<(String, V)>, k: Seq<char>) -> Option<int> {
    key_index_from(t, k, 0)
}

/// First index at or after `i` whose direction is `d`.
pub open spec fn dir_index_from(t: Seq<(String, Direction)>, d: Direction, i: int) -> Option<
    int,
>
    decreases t.len() - i,
{
    if i < 0 || i >= t.len() {
        None
    } else if t[i].1 == d {
        Some(i)
    } else {
        dir_index_from(t, d, i + 1)
    }
}

/// First index of a stick table whose direction is `d`.
pub open spec fn dir_index(t: Seq<(String, Direction)>, d: Direction) -> Option<int> {
    dir_index_from(t, d, 0)
}

pub open spec fn as_index(r: Option<usize>) -> Option<int> {
    match r {
        Some(i) => Some(i as int),
        None => None,
    }
}

/// Position of the first entry of `t` for key `k`.
pub fn find_key<V>(t: &Vec<(String, V)>, k: &str) -> (r: Option<usize>)
    ensures
        as_index(r) == key_index(t@, k@),
        r matches Some(i) ==> i < t@.len() && t@[i as int].0@ == k@,
{
    let mut i: usize = 0;
    while i < t.len()
        invariant
            0 <= i <= t@.len(),
            key_index(t@, k@) == key_index_from(t@, k@, i as int),
        decreases t@.len() - i,
    {
        if same_text(t[i].0.as_str(), k) {
            return Some(i);
        }
        i = i + 1;
    }
    None
}

/// Position of the first entry of a stick table for direction `d`.
pub fn find_direction(t: &Vec<(String, Direction)>, d: Direction) -> (r: Option<usize>)
    ensures
        as_index(r) == dir_index(t@, d),
        r matches Some(i) ==> i < t@.len() && t@[i as int].1 == d,
{
    let mut i: usize = 0;
    while i < t.len()
        invariant
            0 <= i <= t@.len(),
            dir_index(t@, d) == dir_index_from(t@, d, i as int),
        decreases t@.len() - i,
    {
        if t[i].1 == d {
            return Some(i);
        }
        i = i + 1;
    }
    None
}

/// Every entry of a stick table as written names a direction.
pub open spec fn directions_valid(t: Seq<(String, String)>) -> bool {
    forall|i: int| 0 <= i < t.len() ==> direction_of(#[trigger] t[i].0@) is Some
}

/// No key is bound twice in a table as written.
pub open spec fn bound_keys_distinct(t: Seq<(String, String)>) -> bool {
    forall|i: int, j: int| 0 <= i < j < t.len() ==> #[trigger] t[i].1@ != #[trigger] t[j].1@
}

/// No key appears twice in a table looked up by key.
pub open spec fn keys_distinct<V>(t: Seq<(String, V)>) -> bool {
    forall|i: int, j: int| 0 <= i < j < t.len() ==> #[trigger] t[i].0@ != #[trigger] t[j].0@
}

/// A table as written, turned round to be looked up by key.
pub open spec fn by_key(t: Seq<(String, String)>) -> Seq<(String, String)> {
    t.map_values(|e: (String, String)| (e.1, e.0))
}

/// A stick table as written, turned round to be looked up by key.
pub open spec fn directions_by_key(t: Seq<(String, String)>) -> Seq<(String, Direction)> {
    t.map_values(|e: (String, String)| (e.1, direction_of(e.0@)->Some_0))
}

/// A table as written has an entry for the name `s`.
pub open spec fn names_in(t: Seq<(String, String)>, s: Seq<char>) -> bool {
    exists|i: int| 0 <= i < t.len() && #[trigger] t[i].0@ == s
}

/// A table as written binds key `k` twice.
pub open spec fn bound_twice(t: Seq<(String, String)>, k: Seq<char>) -> bool {
    exists|i: int, j: int| 0 <= i < j < t.len() && #[trigger] t[i].1@ == k && #[trigger] t[j].1@ == k
}

pub open spec fn config_binds_twice(c: KeymapConfig, k: Seq<char>) -> bool {
    bound_twice(c.buttons@, k) || bound_twice(c.control_stick@, k) || bound_twice(c.c_stick@, k)
        || bound_twice(c.triggers@, k) || bound_twice(c.mods@, k)
}

pub open spec fn config_directions_valid(c: KeymapConfig) -> bool {
    directions_valid(c.control_stick@) && directions_valid(c.c_stick@)
}

pub open spec fn config_keys_distinct(c: KeymapConfig) -> bool {
    bound_keys_distinct(c.buttons@) && bound_keys_distinct(c.control_stick@)
        && bound_keys_distinct(c.c_stick@) && bound_keys_distinct(c.triggers@)
        && bound_keys_distinct(c.mods@)
}

/// The keymap that a valid configuration stands for.
pub open spec fn keymap_of(c: KeymapConfig, k: Keymap) -> bool {
    &&& k.buttons@ == by_key(c.buttons@)
    &&& k.control_stick@ == directions_by_key(c.control_stick@)
    &&& k.c_stick@ == directions_by_key(c.c_stick@)
    &&& k.triggers@ == by_key(c.triggers@)
    &&& k.mods@ == by_key(c.mods@)
    &&& k.mod_factors == c.mod_factors
}

/// Each key of a checked keymap does at most one thing in each table.
pub open spec fn keymap_wf(k: Keymap) -> bool {
    keys_distinct(k.buttons@) && keys_distinct(k.control_stick@) && keys_distinct(k.c_stick@)
        && keys_distinct(k.triggers@) && keys_distinct(k.mods@)
}

fn invert_names(t: &Vec<(String, String)>) -> (r: Vec<(String, String)>)
    ensures
        r@ == by_key(t@),
{
    let mut r: Vec<(String, String)> = Vec::new();
    let mut i: usize = 0;
    while i < t.len()
        invariant
            0 <= i <= t@.len(),
            r@ == by_key(t@.subrange(0, i as int)),
        decreases t@.len() - i,
    {
        r.push((t[i].1.clone(), t[i].0.clone()));
        assert(by_key(t@.subrange(0, i + 1)) =~= by_key(t@.subrange(0, i as int)).push(
            (t@[i as int].1, t@[i as int].0),
        ));
        i = i + 1;
    }
    assert(t@.subrange(0, t@.len() as int) =~= t@);
    r
}

fn invert_directions(t: &Vec<(String, String)>) -> (r: Result<Vec<(String, Direction)>, String>)
    ensures
        r is Ok <==> directions_valid(t@),
        r matches Ok(v) ==> v@ == directions_by_key(t@),
        r matches Err(s) ==> exists|i: int|
            0 <= i < t@.len() && #[trigger] t@[i].0@ == s@ && direction_of(s@) is None,
{
    let mut r: Vec<(String, Direction)> = Vec::new();
    let mut i: usize = 0;
    while i < t.len()
        invariant
            0 <= i <= t@.len(),
            directions_valid(t@.subrange(0, i as int)),
            r@ == directions_by_key(t@.subrange(0, i as int)),
        decreases t@.len() - i,
    {
        match Direction::from_string(t[i].0.as_str()) {
            Some(d) => {
                r.push((t[i].1.clone(), d));
                assert(directions_by_key(t@.subrange(0, i + 1)) =~= directions_by_key(
                    t@.subrange(0, i as int),
                ).push((t@[i as int].1, d)));
                assert(t@.subrange(0, i + 1) =~= t@.subrange(0, i as int).push(t@[i as int]));
            },
            None => {
                assert(!directions_valid(t@));
                return Err(t[i].0.clone());
            },
        }
        i = i + 1;
    }
    assert(t@.subrange(0, t@.len() as int) =~= t@);
    Ok(r)
}

/// A key bound twice in a table looked up by key, if there is one.
fn find_duplicate<V>(t: &Vec<(String, V)>) -> (r: Option<String>)
    ensures
        r is None <==> keys_distinct(t@),
        r matches Some(k) ==> exists|i: int, j: int|
            0 <= i < j < t@.len() && #[trigger] t@[i].0@ == k@ && #[trigger] t@[j].0@ == k@,
{
    let mut j: usize = 0;
    while j < t.len()
        invariant
            0 <= j <= t@.len(),
            keys_distinct(t@.subrange(0, j as int)),
        decreases t@.len() - j,
    {
        let mut i: usize = 0;
        while i < j
            invariant
                0 <= i <= j < t@.len(),
                keys_distinct(t@.subrange(0, j as int)),
                forall|a: int| 0 <= a < i ==> #[trigger] t@[a].0@ != t@[j as int].0@,
            decreases j - i,
        {
            if same_text(t[i].0.as_str(), t[j].0.as_str()) {
                assert(!keys_distinct(t@)) by {
                    assert(t@[i as int].0@ == t@[j as int].0@);
                }
                return Some(t[j].0.clone());
            }
            i = i + 1;
        }
        assert forall|a: int, b: int| 0 <= a < b < j + 1 implies #[trigger] t@.subrange(
            0,
            j + 1,
        )[a].0@ != #[trigger] t@.subrange(0, j + 1)[b].0@ by {
            if b < j {
                assert(t@.subrange(0, j as int)[a] == t@[a]);
                assert(t@.subrange(0, j as int)[b] == t@[b]);
            }
        }
        j = j + 1;
    }
    assert(t@.subrange(0, t@.len() as int) =~= t@);
    None
}

/// Checks a keymap as written and turns it round to be looked up by key.
/// A stick table that names no direction is refused first; then a table that
/// binds one key twice.
pub fn setup_keymap(config: &KeymapConfig) -> (r: Result<Keymap, KeymapError>)
    ensures
        r is Ok <==> config_directions_valid(*config) && config_keys_distinct(*config),
        r matches Ok(k) ==> keymap_of(*config, k) && keymap_wf(k),
        r matches Err(KeymapError::UnknownDirection(s)) ==> !config_directions_valid(*config)
            && direction_of(s@) is None && (names_in(config.control_stick@, s@) || names_in(
            config.c_stick@,
            s@,
        )),
        r matches Err(KeymapError::DuplicateKey(k)) ==> config_directions_valid(*config)
            && !config_keys_distinct(*config) && config_binds_twice(*config, k@),
        !config_directions_valid(*config) ==> r matches Err(KeymapError::UnknownDirection(_)),
{
    let control_stick = match invert_directions(&config.control_stick) {
        Ok(v) => v,
        Err(s) => {
            return Err(KeymapError::UnknownDirection(s));
        },
    };
    let c_stick = match invert_directions(&config.c_stick) {
        Ok(v) => v,
        Err(s) => {
            return Err(KeymapError::UnknownDirection(s));
        },
    };
    let k = Keymap {
        buttons: invert_names(&config.buttons),
        control_stick,
        c_stick,
        triggers: invert_names(&config.triggers),
        mods: invert_names(&config.mods),
        mod_factors: config.mod_factors,
    };
    proof {
        lemma_distinct_by_key(config.buttons@);
        lemma_distinct_by_key(config.triggers@);
        lemma_distinct_by_key(config.mods@);
        lemma_distinct_directions_by_key(config.control_stick@);
        lemma_distinct_directions_by_key(config.c_stick@);
    }
    let d = find_duplicate(&k.buttons);
    if let Some(key) = d {
        proof {
            lemma_twice_by_key(config.buttons@, key@);
        }
        return Err(KeymapError::DuplicateKey(key));
    }
    let d = find_duplicate(&k.control_stick);
    if let Some(key) = d {
        proof {
            lemma_twice_directions_by_key(config.control_stick@, key@);
        }
        return Err(KeymapError::DuplicateKey(key));
    }
    let d = find_duplicate(&k.c_stick);
    if let Some(key) = d {
        proof {
            lemma_twice_directions_by_key(config.c_stick@, key@);
        }
        return Err(KeymapError::DuplicateKey(key));
    }
    let d = find_duplicate(&k.triggers);
    if let Some(key) = d {
        proof {
            lemma_twice_by_key(config.triggers@, key@);
        }
        return Err(KeymapError::DuplicateKey(key));
    }
    let d = find_duplicate(&k.mods);
    if let Some(key) = d {
        proof {
            lemma_twice_by_key(config.mods@, key@);
        }
        return Err(KeymapError::DuplicateKey(key));
    }
    Ok(k)
}

proof fn lemma_twice_by_key(t: Seq<(String, String)>, k: Seq<char>)
    requires
        exists|i: int, j: int|
            0 <= i < j < by_key(t).len() && #[trigger] by_key(t)[i].0@ == k && #[trigger] by_key(
                t,
            )[j].0@ == k,
    ensures
        bound_twice(t, k),
{
    let (i, j) = choose|i: int, j: int|
        0 <= i < j < by_key(t).len() && #[trigger] by_key(t)[i].0@ == k && #[trigger] by_key(
            t,
        )[j].0@ == k;
    assert(t[i].1@ == k && t[j].1@ == k);
}

proof fn lemma_twice_directions_by_key(t: Seq<(String, String)>, k: Seq<char>)
    requires
        exists|i: int, j: int|
            0 <= i < j < directions_by_key(t).len() && #[trigger] directions_by_key(t)[i].0@ == k
                && #[trigger] directions_by_key(t)[j].0@ == k,
    ensures
        bound_twice(t, k),
{
    let u = directions_by_key(t);
    let (i, j) = choose|i: int, j: int| 0 <= i < j < u.len() && #[trigger] u[i].0@ == k && #[trigger] u[j].0@ == k;
    assert(t[i].1@ == k && t[j].1@ == k);
}

proof fn lemma_distinct_by_key(t: Seq<(String, String)>)
    ensures
        keys_distinct(by_key(t)) <==> bound_keys_distinct(t),
{
    if !bound_keys_distinct(t) {
        let (i, j) = choose|i: int, j: int| 0 <= i < j < t.len() && #[trigger] t[i].1@ == #[trigger] t[j].1@;
        assert(by_key(t)[i].0@ == by_key(t)[j].0@);
    }
    if !keys_distinct(by_key(t)) {
        let (i, j) = choose|i: int, j: int|
            0 <= i < j < by_key(t).len() && #[trigger] by_key(t)[i].0@ == #[trigger] by_key(t)[j].0@;
        assert(t[i].1@ == t[j].1@);
    }
}

proof fn lemma_distinct_directions_by_key(t: Seq<(String, String)>)
    ensures
        keys_distinct(directions_by_key(t)) <==> bound_keys_distinct(t),
{
    let u = directions_by_key(t);
    if !bound_keys_distinct(t) {
        let (i, j) = choose|i: int, j: int| 0 <= i < j < t.len() && #[trigger] t[i].1@ == #[trigger] t[j].1@;
        assert(u[i].0@ == u[j].0@);
    }
    if !keys_distinct(u) {
        let (i, j) = choose|i: int, j: int| 0 <= i < j < u.len() && #[trigger] u[i].0@ == #[trigger] u[j].0@;
        assert(t[i].1@ == t[j].1@);
    }
}

} // verus!
