//! User configuration: keybinding actions and the parsing of modifier and
//! key names into the numeric codes the River protocols use.

use vstd::prelude::*;

verus! {

/// Actions supported by the Shuttle window manager.
#[derive(Clone, Copy, Debug, PartialEq, Eq, Structural)]
pub enum Action {
    FocusLeft,
    FocusRight,
    MoveLeft,
    MoveRight,
    CloseWindow,
    Quit,
    SpawnTerminal,
}

/// A single keybinding configuration.
#[derive(Clone, Debug)]
pub struct KeybindConfig {
    pub modifiers: Vec<String>,
    pub key: String,
    pub action: Action,
}

/// The root configuration structure representing the user's config file.
#[derive(Clone, Debug)]
pub struct Config {
    pub bindings: Vec<KeybindConfig>,
}

/// Abstract content of a keybinding.
pub struct KeybindView {
    pub modifiers: Seq<Seq<char>>,
    pub key: Seq<char>,
    pub action: Action,
}

impl View for KeybindConfig {
    type V = KeybindView;

    open spec fn view(&self) -> KeybindView {
        KeybindView {
            modifiers: self.modifiers@.map_values(|m: String| m@),
            key: self.key@,
            action: self.action,
        }
    }
}

impl View for Config {
    type V = Seq<KeybindView>;

    open spec fn view(&self) -> Seq<KeybindView> {
        self.bindings@.map_values(|b: KeybindConfig| b@)
    }
}

// ---------------------------------------------------------------------------
// Modifier and key names
// ---------------------------------------------------------------------------

/// The lowercase form of a string, as `str::to_lowercase` computes it
/// (Unicode's `Lowercase` mapping).
pub uninterp spec fn lowercase(s: Seq<char>) -> Seq<char>;

/// Calls `str::to_lowercase`; its result is named `lowercase` of the
/// argument and nothing more is claimed of it.
#[verifier::external_body]
fn to_lowercase(s: &str) -> (r: String)
    ensures
        r@ == lowercase(s@),
{
    s.to_lowercase()
}

/// The `river_seat_v1.modifiers` bit of an already lowercased modifier
/// name; 0 for an unknown name.
pub open spec fn modifier_bit(l: Seq<char>) -> u32 {
    if l == "shift"@ {
        1
    } else if l == "ctrl"@ || l == "control"@ {
        4
    } else if l == "alt"@ || l == "mod1"@ {
        8
    } else if l == "mod3"@ {
        32
    } else if l == "super"@ || l == "mod4"@ || l == "logo"@ {
        64
    } else if l == "mod5"@ {
        128
    } else {
        0
    }
}

/// The XKB keysym of an already lowercased key name: a single ASCII
/// character stands for its own code, a few names are known, anything
/// else is 0.
pub open spec fn keysym_of(l: Seq<char>) -> u32 {
    if l.len() == 1 && (l[0] as u32) < 128 {
        l[0] as u32
    } else if l == "enter"@ || l == "return"@ {
        0xff0d
    } else if l == "escape"@ || l == "esc"@ {
        0xff1b
    } else if l == "space"@ {
        0x0020
    } else if l == "tab"@ {
        0xff09
    } else if l == "left"@ {
        0xff51
    } else if l == "right"@ {
        0xff53
    } else {
        0
    }
}

pub(crate) fn str_eq(a: &str, b: &str) -> (r: bool)
    ensures
        r == (a@ == b@),
{
    let x = a.to_owned();
    let y = b.to_owned();
    x == y
}

/// Maps an already lowercased modifier name to its bitmask.
pub fn modifier_from_lowercase(lower: &str) -> (r: u32)
    ensures
        r == modifier_bit(lower@),
{
    if str_eq(lower, "shift") {
        1
    } else if str_eq(lower, "ctrl") || str_eq(lower, "control") {
        4
    } else if str_eq(lower, "alt") || str_eq(lower, "mod1") {
        8
    } else if str_eq(lower, "mod3") {
        32
    } else if str_eq(lower, "super") || str_eq(lower, "mod4") || str_eq(lower, "logo") {
        64
    } else if str_eq(lower, "mod5") {
        128
    } else {
        0
    }
}

/// Maps an already lowercased key name to its XKB keysym.
pub fn keysym_from_lowercase(lower: &str) -> (r: u32)
    ensures
        r == keysym_of(lower@),
{
    if lower.unicode_len() == 1 {
        let c = lower.get_char(0);
        if (c as u32) < 128 {
            return c as u32;
        }
    }
    if str_eq(lower, "enter") || str_eq(lower, "return") {
        0xff0d
    } else if str_eq(lower, "escape") || str_eq(lower, "esc") {
        0xff1b
    } else if str_eq(lower, "space") {
        0x0020
    } else if str_eq(lower, "tab") {
        0xff09
    } else if str_eq(lower, "left") {
        0xff51
    } else if str_eq(lower, "right") {
        0xff53
    } else {
        0
    }
}

/// Converts a modifier string (any case) to the bitmask of the River
/// protocol's `river_seat_v1.modifiers` enum; unknown names give 0.
pub fn parse_modifier(mod_str: &str) -> (r: u32)
    ensures
        r == modifier_bit(lowercase(mod_str@)),
{
    let lower = to_lowercase(mod_str);
    modifier_from_lowercase(lower.as_str())
}

/// Converts a key string (any case) to its XKB keysym; unknown names give 0.
pub fn parse_keysym(key_str: &str) -> (r: u32)
    ensures
        r == keysym_of(lowercase(key_str@)),
{
    let lower = to_lowercase(key_str);
    keysym_from_lowercase(lower.as_str())
}

// ---------------------------------------------------------------------------
// Keybindings prepared for registration
// ---------------------------------------------------------------------------

/// The combined modifier mask of a list of modifier names.
pub open spec fn mask_of(mods: Seq<Seq<char>>) -> u32
    decreases mods.len(),
{
    if mods.len() == 0 {
        0
    } else {
        mask_of(mods.drop_last()) | modifier_bit(lowercase(mods.last()))
    }
}

/// The (modifier mask, keysym, action) triples to register for a list of
/// keybindings, in order; bindings whose key is unknown are skipped.
pub open spec fn prepared(bs: Seq<KeybindView>) -> Seq<(u32, u32, Action)>
    decreases bs.len(),
{
    if bs.len() == 0 {
        Seq::empty()
    } else {
        let rest = prepared(bs.drop_last());
        let b = bs.last();
        let k = keysym_of(lowercase(b.key));
        if k != 0 {
            rest.push((mask_of(b.modifiers), k, b.action))
        } else {
            rest
        }
    }
}

/// The combined modifier mask of a list of modifier names.
pub fn parse_modifiers(mods: &Vec<String>) -> (r: u32)
    ensures
        r == mask_of(mods@.map_values(|m: String| m@)),
{
    let ghost names = mods@.map_values(|m: String| m@);
    let mut mask: u32 = 0;
    let mut i: usize = 0;
    while i < mods.len()
        invariant
            i <= mods@.len(),
            names == mods@.map_values(|m: String| m@),
            mask == mask_of(names.take(i as int)),
        decreases mods@.len() - i,
    {
        let bit = parse_modifier(mods[i].as_str());
        proof {
            assert(names.take(i + 1).drop_last() =~= names.take(i as int));
        }
        mask = mask | bit;
        i = i + 1;
    }
    proof {
        assert(names.take(mods@.len() as int) =~= names);
    }
    mask
}


/// Only bindings with a known key are prepared: every prepared keysym is
/// non-zero, and there are never more prepared bindings than configured
/// ones.
pub proof fn lemma_prepared_known_keys(bs: Seq<KeybindView>)
    ensures
        prepared(bs).len() <= bs.len(),
        forall|i: int| 0 <= i < prepared(bs).len() ==> (#[trigger] prepared(bs)[i]).1 != 0,
    decreases bs.len(),
{
    if bs.len() > 0 {
        lemma_prepared_known_keys(bs.drop_last());
    }
}

/// A binding whose key is known is prepared with its modifier mask,
/// keysym and action, after those of the bindings before it.
pub proof fn lemma_prepared_last(bs: Seq<KeybindView>, b: KeybindView)
    requires
        keysym_of(lowercase(b.key)) != 0,
    ensures
        prepared(bs.push(b)) == prepared(bs).push((mask_of(b.modifiers), keysym_of(lowercase(b.key)), b.action)),
{
    assert(bs.push(b).drop_last() =~= bs);
}

} // verus!
