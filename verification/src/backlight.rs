//! The closed, ordered enumeration of lighting effects and the graceful
//! defaults used when a board reports an out-of-range mode.

use vstd::prelude::*;

verus! {

/// Number of lighting effects: solid, per-key, and eleven animated cycles.
pub const MODE_COUNT: u8 = 13;

/// The firmware identifier of a mode index.
pub open spec fn mode_ident_spec(mode: int) -> Seq<char> {
    if mode == 0 {
        "SOLID_COLOR"@
    } else if mode == 1 {
        "PER_KEY"@
    } else if mode == 2 {
        "CYCLE_ALL"@
    } else if mode == 3 {
        "CYCLE_LEFT_RIGHT"@
    } else if mode == 4 {
        "CYCLE_UP_DOWN"@
    } else if mode == 5 {
        "CYCLE_OUT_IN"@
    } else if mode == 6 {
        "CYCLE_OUT_IN_DUAL"@
    } else if mode == 7 {
        "RAINBOW_MOVING_CHEVRON"@
    } else if mode == 8 {
        "CYCLE_PINWHEEL"@
    } else if mode == 9 {
        "CYCLE_SPIRAL"@
    } else if mode == 10 {
        "RAINDROPS"@
    } else if mode == 11 {
        "SPLASH"@
    } else {
        "MULTISPLASH"@
    }
}

/// The firmware identifier of a mode index, or `None` when the index is
/// out of range.
pub fn mode_ident(mode: u8) -> (r: Option<&'static str>)
    ensures
        r matches Some(s) ==> mode < MODE_COUNT && s@ == mode_ident_spec(mode as int),
        r is None <==> mode >= MODE_COUNT,
{
    match mode {
        0 => Some("SOLID_COLOR"),
        1 => Some("PER_KEY"),
        2 => Some("CYCLE_ALL"),
        3 => Some("CYCLE_LEFT_RIGHT"),
        4 => Some("CYCLE_UP_DOWN"),
        5 => Some("CYCLE_OUT_IN"),
        6 => Some("CYCLE_OUT_IN_DUAL"),
        7 => Some("RAINBOW_MOVING_CHEVRON"),
        8 => Some("CYCLE_PINWHEEL"),
        9 => Some("CYCLE_SPIRAL"),
        10 => Some("RAINDROPS"),
        11 => Some("SPLASH"),
        12 => Some("MULTISPLASH"),
        _ => None,
    }
}

/// The mode index of a firmware identifier, if it names one.
pub open spec fn mode_index_spec(ident: Seq<char>) -> Option<u8> {
    if ident == "SOLID_COLOR"@ {
        Some(0u8)
    } else if ident == "PER_KEY"@ {
        Some(1u8)
    } else if ident == "CYCLE_ALL"@ {
        Some(2u8)
    } else if ident == "CYCLE_LEFT_RIGHT"@ {
        Some(3u8)
    } else if ident == "CYCLE_UP_DOWN"@ {
        Some(4u8)
    } else if ident == "CYCLE_OUT_IN"@ {
        Some(5u8)
    } else if ident == "CYCLE_OUT_IN_DUAL"@ {
        Some(6u8)
    } else if ident == "RAINBOW_MOVING_CHEVRON"@ {
        Some(7u8)
    } else if ident == "CYCLE_PINWHEEL"@ {
        Some(8u8)
    } else if ident == "CYCLE_SPIRAL"@ {
        Some(9u8)
    } else if ident == "RAINDROPS"@ {
        Some(10u8)
    } else if ident == "SPLASH"@ {
        Some(11u8)
    } else if ident == "MULTISPLASH"@ {
        Some(12u8)
    } else {
        None
    }
}

/// Find the mode index a firmware identifier names.
pub fn mode_index(ident: &String) -> (r: Option<u8>)
    ensures
        r == mode_index_spec(ident@),
{
    if *ident == String::from_str("SOLID_COLOR") {
        Some(0)
    } else if *ident == String::from_str("PER_KEY") {
        Some(1)
    } else if *ident == String::from_str("CYCLE_ALL") {
        Some(2)
    } else if *ident == String::from_str("CYCLE_LEFT_RIGHT") {
        Some(3)
    } else if *ident == String::from_str("CYCLE_UP_DOWN") {
        Some(4)
    } else if *ident == String::from_str("CYCLE_OUT_IN") {
        Some(5)
    } else if *ident == String::from_str("CYCLE_OUT_IN_DUAL") {
        Some(6)
    } else if *ident == String::from_str("RAINBOW_MOVING_CHEVRON") {
        Some(7)
    } else if *ident == String::from_str("CYCLE_PINWHEEL") {
        Some(8)
    } else if *ident == String::from_str("CYCLE_SPIRAL") {
        Some(9)
    } else if *ident == String::from_str("RAINDROPS") {
        Some(10)
    } else if *ident == String::from_str("SPLASH") {
        Some(11)
    } else if *ident == String::from_str("MULTISPLASH") {
        Some(12)
    } else {
        None
    }
}

/// The identifier table is injective: looking up the identifier of any
/// in-range mode index finds that same index again.
#[verifier::rlimit(100)]
pub proof fn lemma_mode_round_trip(mode: u8)
    requires
        mode < MODE_COUNT,
    ensures
        mode_index_spec(mode_ident_spec(mode as int)) == Some(mode),
{
    reveal_strlit("SOLID_COLOR");
    reveal_strlit("PER_KEY");
    reveal_strlit("CYCLE_ALL");
    reveal_strlit("CYCLE_LEFT_RIGHT");
    reveal_strlit("CYCLE_UP_DOWN");
    reveal_strlit("CYCLE_OUT_IN");
    reveal_strlit("CYCLE_OUT_IN_DUAL");
    reveal_strlit("RAINBOW_MOVING_CHEVRON");
    reveal_strlit("CYCLE_PINWHEEL");
    reveal_strlit("CYCLE_SPIRAL");
    reveal_strlit("RAINDROPS");
    reveal_strlit("SPLASH");
    reveal_strlit("MULTISPLASH");
    assert("SOLID_COLOR"@.len() == 11);
    assert("PER_KEY"@.len() == 7);
    assert("CYCLE_ALL"@.len() == 9);
    assert("CYCLE_LEFT_RIGHT"@.len() == 16);
    assert("CYCLE_UP_DOWN"@.len() == 13);
    assert("CYCLE_OUT_IN"@.len() == 12);
    assert("CYCLE_OUT_IN_DUAL"@.len() == 17);
    assert("RAINBOW_MOVING_CHEVRON"@.len() == 22);
    assert("CYCLE_PINWHEEL"@.len() == 14);
    assert("CYCLE_SPIRAL"@.len() == 12);
    assert("RAINDROPS"@.len() == 9);
    assert("SPLASH"@.len() == 6);
    assert("MULTISPLASH"@.len() == 11);
    assert("CYCLE_SPIRAL"@[6] == 'S' && "CYCLE_OUT_IN"@[6] == 'O');
    assert("RAINDROPS"@[0] == 'R' && "CYCLE_ALL"@[0] == 'C');
    assert("MULTISPLASH"@[0] == 'M' && "SOLID_COLOR"@[0] == 'S');
    assert(mode_index_spec(mode_ident_spec(0)) == Some(0u8));
    assert(mode_index_spec(mode_ident_spec(1)) == Some(1u8));
    assert(mode_index_spec(mode_ident_spec(2)) == Some(2u8));
    assert(mode_index_spec(mode_ident_spec(3)) == Some(3u8));
    assert(mode_index_spec(mode_ident_spec(4)) == Some(4u8));
    assert(mode_index_spec(mode_ident_spec(5)) == Some(5u8));
    assert(mode_index_spec(mode_ident_spec(6)) == Some(6u8));
    assert(mode_index_spec(mode_ident_spec(7)) == Some(7u8));
    assert(mode_index_spec(mode_ident_spec(8)) == Some(8u8));
    assert(mode_index_spec(mode_ident_spec(9)) == Some(9u8));
    assert(mode_index_spec(mode_ident_spec(10)) == Some(10u8));
    assert(mode_index_spec(mode_ident_spec(11)) == Some(11u8));
    assert(mode_index_spec(mode_ident_spec(12)) == Some(12u8));
}

/// The mode and speed to show when reading the board's mode fails:
/// the first effect at half speed.
pub fn mode_or_default(r: &Result<(u8, u8), String>) -> (ms: (u8, u8))
    ensures
        r matches Ok(v) ==> ms == v,
        r is Err ==> ms == (0u8, 128u8),
{
    match r {
        Ok(v) => *v,
        Err(_) => (0, 128),
    }
}

} // verus!
