//! Keymap snapshots and the transactional export / clear / restore
//! operations the diagnostic harness wraps around destructive tests.

use vstd::prelude::*;

use crate::daemon::{
    keymap_only_change, same_boards_except, valid_board, BoardId, Daemon,
};

verus! {

/// The set of physical keys of a board: each key's electrical position
/// (output pin, input pin), and how many layers the firmware stores.
pub struct Layout {
    pub keys: Vec<(u8, u8)>,
    pub layers: u8,
}

impl Layout {
    /// One entry per physical key: no electrical position appears twice.
    pub open spec fn wf(&self) -> bool {
        forall|i: int, j: int|
            0 <= i < j < self.keys@.len() ==> self.keys@[i] != self.keys@[j]
    }
}

/// The keymap position of key `i` of the layout at layer `l`.
pub open spec fn layout_pos(layout: &Layout, i: int, l: int) -> (u8, u8, u8) {
    (l as u8, layout.keys@[i].0, layout.keys@[i].1)
}

/// A keymap position addressed by the layout: a layer below the layer
/// count, at the electrical position of one of the keys.
pub open spec fn pos_in_layout(layout: &Layout, q: (u8, u8, u8)) -> bool {
    q.0 < layout.layers && exists|i: int|
        0 <= i < layout.keys@.len() && (#[trigger] layout.keys@[i]).0 == q.1
            && layout.keys@[i].1 == q.2
}

/// A snapshot of the scancodes of every key and layer of a layout:
/// `codes[i][l]` is the scancode of key `i` at layer `l`.
pub struct KeyMap {
    pub codes: Vec<Vec<u16>>,
}

impl KeyMap {
    pub open spec fn matches_layout(&self, layout: &Layout) -> bool {
        self.codes@.len() == layout.keys@.len() && forall|i: int|
            0 <= i < self.codes@.len() ==> (#[trigger] self.codes@[i])@.len() == layout.layers
    }

    /// The snapshot that maps every key and layer to scancode 0 (no
    /// mapping), used to force a known-empty keymap during tests.
    pub fn cleared(layout: &Layout) -> (km: KeyMap)
        ensures
            km.matches_layout(layout),
            forall|i: int, l: int|
                0 <= i < layout.keys@.len() && 0 <= l < layout.layers
                    ==> (#[trigger] km.codes@[i]@[l]) == 0,
    {
        let n = layout.keys.len();
        let layers = layout.layers as usize;
        let mut codes: Vec<Vec<u16>> = Vec::new();
        let mut i: usize = 0;
        while i < n
            invariant
                i <= n,
                codes@.len() == i,
                forall|j: int| 0 <= j < i ==> (#[trigger] codes@[j])@.len() == layers,
                forall|j: int, l: int|
                    0 <= j < i && 0 <= l < layers ==> (#[trigger] codes@[j]@[l]) == 0,
            decreases n - i,
        {
            let mut row: Vec<u16> = Vec::new();
            let mut l: usize = 0;
            while l < layers
                invariant
                    l <= layers,
                    row@.len() == l,
                    forall|m: int| 0 <= m < l ==> (#[trigger] row@[m]) == 0,
                decreases layers - l,
            {
                row.push(0);
                l = l + 1;
            }
            codes.push(row);
            i = i + 1;
        }
        KeyMap { codes }
    }
}

/// Read the live keymap in full: one scancode per key and layer of the
/// layout. Relies only on read operations, so device state is untouched.
pub fn export_keymap<D: Daemon>(d: &D, board: BoardId, layout: &Layout) -> (r: Result<
    KeyMap,
    String,
>)
    ensures
        r matches Ok(km) ==> km.matches_layout(layout) && forall|i: int, l: int|
            0 <= i < layout.keys@.len() && 0 <= l < layout.layers
                ==> (#[trigger] km.codes@[i]@[l]) == d.boards_model()[board.0 as int].keymap[layout_pos(layout, i, l)],
        d.reliable() && valid_board(d.boards_model(), board) ==> r is Ok,
        r is Err ==> !(d.reliable() && valid_board(d.boards_model(), board)),
{
    let n = layout.keys.len();
    let layers = layout.layers as usize;
    let mut codes: Vec<Vec<u16>> = Vec::new();
    let mut i: usize = 0;
    while i < n
        invariant
            i <= n,
            n == layout.keys@.len(),
            layers == layout.layers,
            codes@.len() == i,
            forall|j: int| 0 <= j < i ==> (#[trigger] codes@[j])@.len() == layers,
            forall|j: int, l: int|
                0 <= j < i && 0 <= l < layers ==> (#[trigger] codes@[j]@[l])
                    == d.boards_model()[board.0 as int].keymap[layout_pos(layout, j, l)],
        decreases n - i,
    {
        let key = layout.keys[i];
        let mut row: Vec<u16> = Vec::new();
        let mut l: usize = 0;
        while l < layers
            invariant
                l <= layers,
                layers == layout.layers,
                i < layout.keys@.len(),
                key == layout.keys@[i as int],
                row@.len() == l,
                forall|m: int|
                    0 <= m < l ==> (#[trigger] row@[m])
                        == d.boards_model()[board.0 as int].keymap[layout_pos(layout, i as int, m)],
            decreases layers - l,
        {
            match d.keymap_get(board, l as u8, key.0, key.1) {
                Ok(v) => {
                    row.push(v);
                },
                Err(e) => {
                    return Err(e);
                },
            }
            l = l + 1;
        }
        codes.push(row);
        i = i + 1;
    }
    Ok(KeyMap { codes })
}

/// Write a snapshot back to the device, one entry at a time. Every write
/// is attempted even after a failure (best effort); the first error, if
/// any, is reported. Positions outside the layout are never touched.
pub fn import_keymap<D: Daemon>(d: &mut D, board: BoardId, layout: &Layout, km: &KeyMap) -> (r:
    Result<(), String>)
    requires
        layout.wf(),
        km.matches_layout(layout),
    ensures
        final(d).reliable() == old(d).reliable(),
        same_boards_except(old(d).boards_model(), final(d).boards_model(), board.0 as int),
        valid_board(old(d).boards_model(), board) ==> keymap_only_change(
            old(d).boards_model()[board.0 as int],
            final(d).boards_model()[board.0 as int],
        ) && forall|q: (u8, u8, u8)|
            !pos_in_layout(layout, q) ==> final(d).boards_model()[board.0 as int].keymap[q] == old(
                d,
            ).boards_model()[board.0 as int].keymap[q],
        !valid_board(old(d).boards_model(), board) ==> final(d).boards_model() == old(
            d,
        ).boards_model(),
        r is Ok ==> forall|i: int, l: int|
            0 <= i < layout.keys@.len() && 0 <= l < layout.layers
                ==> final(d).boards_model()[board.0 as int].keymap[layout_pos(layout, i, l)] == (
            #[trigger] km.codes@[i]@[l]),
        old(d).reliable() && valid_board(old(d).boards_model(), board) ==> r is Ok,
{
    let ghost orig = old(d).boards_model();
    let ghost b = board.0 as int;
    let n = layout.keys.len();
    let layers = layout.layers as usize;
    let mut first_error: Option<String> = None;
    let mut i: usize = 0;
    while i < n
        invariant
            i <= n,
            n == layout.keys@.len(),
            layers == layout.layers,
            layout.wf(),
            km.matches_layout(layout),
            orig == old(d).boards_model(),
            b == board.0 as int,
            d.reliable() == old(d).reliable(),
            same_boards_except(orig, d.boards_model(), b),
            valid_board(orig, board) ==> keymap_only_change(
                orig[b],
                d.boards_model()[b],
            ) && forall|q: (u8, u8, u8)|
                !pos_in_layout(layout, q) ==> d.boards_model()[b].keymap[q] == orig[b].keymap[q],
            !valid_board(orig, board) ==> d.boards_model() == orig,
            first_error is None ==> forall|j: int, l: int|
                0 <= j < i && 0 <= l < layers ==> d.boards_model()[b].keymap[layout_pos(
                    layout,
                    j,
                    l,
                )] == (#[trigger] km.codes@[j]@[l]),
            old(d).reliable() && valid_board(orig, board) ==> first_error is None,
        decreases n - i,
    {
        let key = layout.keys[i];
        let row_len = km.codes[i].len();
        let mut l: usize = 0;
        while l < layers
            invariant
                l <= layers,
                i < n,
                n == layout.keys@.len(),
                layers == layout.layers,
                layout.wf(),
                km.matches_layout(layout),
                key == layout.keys@[i as int],
                row_len == km.codes@[i as int]@.len(),
                orig == old(d).boards_model(),
                b == board.0 as int,
                d.reliable() == old(d).reliable(),
                same_boards_except(orig, d.boards_model(), b),
                valid_board(orig, board) ==> keymap_only_change(
                    orig[b],
                    d.boards_model()[b],
                ) && forall|q: (u8, u8, u8)|
                    !pos_in_layout(layout, q) ==> d.boards_model()[b].keymap[q]
                        == orig[b].keymap[q],
                !valid_board(orig, board) ==> d.boards_model() == orig,
                first_error is None ==> forall|j: int, m: int|
                    0 <= j < i && 0 <= m < layers ==> d.boards_model()[b].keymap[layout_pos(
                        layout,
                        j,
                        m,
                    )] == (#[trigger] km.codes@[j]@[m]),
                first_error is None ==> forall|m: int|
                    0 <= m < l ==> d.boards_model()[b].keymap[layout_pos(layout, i as int, m)] == (
                    #[trigger] km.codes@[i as int]@[m]),
                old(d).reliable() && valid_board(orig, board) ==> first_error is None,
            decreases layers - l,
        {
            let value = km.codes[i][l];
            let ghost before = d.boards_model();
            let res = d.keymap_set(board, l as u8, key.0, key.1, value);
            proof {
                if valid_board(orig, board) {
                    assert(pos_in_layout(layout, (l as u8, key.0, key.1)));
                }
            }
            match res {
                Ok(_) => (),
                Err(e) => {
                    if first_error.is_none() {
                        first_error = Some(e);
                    }
                },
            }
            l = l + 1;
        }
        i = i + 1;
    }
    match first_error {
        None => Ok(()),
        Some(e) => Err(e),
    }
}

} // verus!
