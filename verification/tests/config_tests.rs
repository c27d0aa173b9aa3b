use shuttle::config::{
    keysym_from_lowercase, modifier_from_lowercase, parse_keysym, parse_modifier, parse_modifiers,
};

#[test]
fn modifiers_map_to_river_bits() {
    assert_eq!(parse_modifier("shift"), 1);
    assert_eq!(parse_modifier("Ctrl"), 4);
    assert_eq!(parse_modifier("CONTROL"), 4);
    assert_eq!(parse_modifier("alt"), 8);
    assert_eq!(parse_modifier("Mod1"), 8);
    assert_eq!(parse_modifier("mod3"), 32);
    assert_eq!(parse_modifier("Super"), 64);
    assert_eq!(parse_modifier("MOD4"), 64);
    assert_eq!(parse_modifier("Logo"), 64);
    assert_eq!(parse_modifier("mod5"), 128);
}

#[test]
fn unknown_modifier_is_zero() {
    assert_eq!(parse_modifier("hyper"), 0);
    assert_eq!(parse_modifier(""), 0);
    assert_eq!(parse_modifier("mod2"), 0);
}

#[test]
fn lowercased_modifier_table_is_case_sensitive() {
    assert_eq!(modifier_from_lowercase("super"), 64);
    assert_eq!(modifier_from_lowercase("Super"), 0);
}

#[test]
fn modifier_masks_combine() {
    let mods = vec!["Super".to_string(), "Shift".to_string(), "Alt".to_string()];
    assert_eq!(parse_modifiers(&mods), 73);
    assert_eq!(parse_modifiers(&Vec::new()), 0);
    let twice = vec!["ctrl".to_string(), "Control".to_string()];
    assert_eq!(parse_modifiers(&twice), 4);
}

#[test]
fn single_ascii_keys_are_their_code() {
    assert_eq!(parse_keysym("h"), 104);
    assert_eq!(parse_keysym("H"), 104);
    assert_eq!(parse_keysym("1"), 49);
    assert_eq!(parse_keysym("/"), 47);
}

#[test]
fn named_keys() {
    assert_eq!(parse_keysym("Enter"), 0xff0d);
    assert_eq!(parse_keysym("return"), 0xff0d);
    assert_eq!(parse_keysym("Escape"), 0xff1b);
    assert_eq!(parse_keysym("esc"), 0xff1b);
    assert_eq!(parse_keysym("Space"), 0x0020);
    assert_eq!(parse_keysym("TAB"), 0xff09);
    assert_eq!(parse_keysym("left"), 0xff51);
    assert_eq!(parse_keysym("Right"), 0xff53);
}

#[test]
fn unknown_keys_are_zero() {
    assert_eq!(parse_keysym("F1"), 0);
    assert_eq!(parse_keysym(""), 0);
    assert_eq!(parse_keysym("é"), 0);
    assert_eq!(keysym_from_lowercase("Enter"), 0);
    assert_eq!(keysym_from_lowercase("q"), 113);
}
