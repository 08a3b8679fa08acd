//! Scancode selection logic: applying a picked scancode to every selected
//! key, and the mod-tap encoding of a modifier with a base keycode.

use vstd::prelude::*;

use crate::daemon::{same_boards_except, valid_board, BoardId, Daemon};

verus! {

/// The firmware encoding of a mod-tap key: hold for the modifier, tap for
/// the keycode.
pub fn mod_tap_code(modifier: u16, kc: u16) -> (r: u16)
    ensures
        r == (0x6000u16 | ((modifier & 0x1f) << 8) | (kc & 0xff)),
{
    0x6000 | ((modifier & 0x1f) << 8) | (kc & 0xff)
}

/// The modifier bit assigned to a modifier identifier, if it names one.
pub open spec fn mod_code_spec(name: Seq<char>) -> Option<u16> {
    if name == "LCTL"@ {
        Some(0x01u16)
    } else if name == "LSFT"@ {
        Some(0x02u16)
    } else if name == "LALT"@ {
        Some(0x04u16)
    } else if name == "LGUI"@ {
        Some(0x08u16)
    } else if name == "RCTL"@ {
        Some(0x11u16)
    } else if name == "RSFT"@ {
        Some(0x12u16)
    } else if name == "RALT"@ {
        Some(0x14u16)
    } else if name == "RGUI"@ {
        Some(0x18u16)
    } else {
        None
    }
}

/// Map a modifier identifier to its modifier bit.
pub fn mod_code(name: &String) -> (r: Option<u16>)
    ensures
        r == mod_code_spec(name@),
{
    if *name == String::from_str("LCTL") {
        Some(0x01)
    } else if *name == String::from_str("LSFT") {
        Some(0x02)
    } else if *name == String::from_str("LALT") {
        Some(0x04)
    } else if *name == String::from_str("LGUI") {
        Some(0x08)
    } else if *name == String::from_str("RCTL") {
        Some(0x11)
    } else if *name == String::from_str("RSFT") {
        Some(0x12)
    } else if *name == String::from_str("RALT") {
        Some(0x14)
    } else if *name == String::from_str("RGUI") {
        Some(0x18)
    } else {
        None
    }
}

/// Write a picked scancode to one layer of every selected key. All writes
/// are attempted; the first error, if any, is reported. Positions other
/// than the written ones are untouched.
pub fn key_pressed<D: Daemon>(
    d: &mut D,
    board: BoardId,
    selected: &Vec<(u8, u8)>,
    layer: u8,
    scancode: u16,
) -> (r: Result<(), String>)
    ensures
        final(d).reliable() == old(d).reliable(),
        same_boards_except(old(d).boards_model(), final(d).boards_model(), board.0 as int),
        r is Ok ==> forall|j: int|
            0 <= j < selected@.len() ==> final(d).boards_model()[board.0 as int].keymap[
                (layer, (#[trigger] selected@[j]).0, selected@[j].1)
            ] == scancode,
        old(d).reliable() && valid_board(old(d).boards_model(), board) ==> r is Ok,
        !valid_board(old(d).boards_model(), board) ==> final(d).boards_model() == old(
            d,
        ).boards_model(),
{
    let ghost orig = old(d).boards_model();
    let ghost b = board.0 as int;
    let n = selected.len();
    let mut first_error: Option<String> = None;
    let mut j: usize = 0;
    while j < n
        invariant
            j <= n,
            n == selected@.len(),
            orig == old(d).boards_model(),
            b == board.0 as int,
            d.reliable() == old(d).reliable(),
            same_boards_except(orig, d.boards_model(), b),
            !valid_board(orig, board) ==> d.boards_model() == orig,
            first_error is None ==> forall|i: int|
                0 <= i < j ==> d.boards_model()[b].keymap[
                    (layer, (#[trigger] selected@[i]).0, selected@[i].1)
                ] == scancode,
            old(d).reliable() && valid_board(orig, board) ==> first_error is None,
        decreases n - j,
    {
        let key = selected[j];
        match d.keymap_set(board, layer, key.0, key.1, scancode) {
            Ok(_) => (),
            Err(e) => {
                if first_error.is_none() {
                    first_error = Some(e);
                }
            },
        }
        j = j + 1;
    }
    match first_error {
        None => Ok(()),
        Some(e) => Err(e),
    }
}

} // verus!
