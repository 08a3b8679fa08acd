//! The board capability interface: identifies attached devices and exposes
//! keymap, lighting and diagnostic operations, each fallible. Implementations
//! range from an in-memory simulated board to a hardware-backed transport;
//! the contracts below are what every verified implementation promises.

use vstd::prelude::*;

use crate::bench::{covers_all_ports, Benchmark};
use crate::color::Hs;
use crate::matrix::Matrix;
use crate::selma::{Selma, SelmaKind};

verus! {

/// Opaque numeric handle identifying one attached or simulated device.
#[derive(Clone, Copy, Debug, Eq, PartialEq, Structural)]
pub struct BoardId(pub u128);

/// The abstract device-resident state of one board. The keymap is total:
/// positions never written read as scancode 0 (no mapping).
#[verifier::ext_equal]
pub ghost struct BoardModel {
    pub name: Seq<char>,
    pub keymap: Map<(u8, u8, u8), u16>,
    pub color: Hs,
    pub brightness: i32,
    pub max_brightness: i32,
    pub mode: u8,
    pub speed: u8,
}

/// The board identified by `b` exists.
pub open spec fn valid_board(boards: Seq<BoardModel>, b: BoardId) -> bool {
    b.0 < boards.len()
}

/// All boards other than `b` are untouched.
pub open spec fn same_boards_except(pre: Seq<BoardModel>, post: Seq<BoardModel>, b: int) -> bool {
    post.len() == pre.len() && forall|i: int|
        0 <= i < pre.len() && i != b ==> post[i] == pre[i]
}

/// Only the keymap of the board may have changed.
pub open spec fn keymap_only_change(pre: BoardModel, post: BoardModel) -> bool {
    post.name == pre.name && post.color == pre.color && post.brightness == pre.brightness
        && post.max_brightness == pre.max_brightness && post.mode == pre.mode && post.speed
        == pre.speed
}

/// The board reads exactly as it did before: every non-keymap field is
/// unchanged and every keymap position holds its old scancode. (A model's
/// keymap map may record a position explicitly or leave it to the absent
/// default; only the values are observable through the interface.)
pub open spec fn same_keymap(pre: BoardModel, post: BoardModel) -> bool {
    keymap_only_change(pre, post) && forall|q: (u8, u8, u8)| post.keymap[q] == pre.keymap[q]
}

/// The index convention for single-zone lighting operations: `0xFF` denotes
/// the whole keyboard; per-key addressing is a variant capability a board
/// may lack.
pub const WHOLE_KEYBOARD: u8 = 0xFF;

/// The capability interface every board implementation exposes.
///
/// `boards_model` is the implementation's view of device-resident state;
/// `reliable` says whether the boards are simulated in memory: operations
/// on a valid board are then guaranteed to take effect, and diagnostic
/// snapshots are empty, since a simulated board has no electrical state.
/// A transport to physical hardware is not reliable — it may fail at any
/// call and its snapshots are the device's to decide.
pub trait Daemon: Sized {
    spec fn boards_model(&self) -> Seq<BoardModel>;

    spec fn reliable(&self) -> bool;

    /// Enumerate currently known devices.
    fn boards(&self) -> (r: Result<Vec<BoardId>, String>)
        ensures
            r matches Ok(ids) ==> ids@.len() == self.boards_model().len() && forall|i: int|
                0 <= i < ids@.len() ==> (#[trigger] ids@[i]).0 == i,
            self.reliable() ==> r is Ok,
    ;

    /// The model name of a board.
    fn model(&self, board: BoardId) -> (r: Result<String, String>)
        ensures
            r matches Ok(name) ==> valid_board(self.boards_model(), board) && name@
                == self.boards_model()[board.0 as int].name,
            self.reliable() ==> (r is Ok <==> valid_board(self.boards_model(), board)),
    ;

    /// Whether this implementation simulates its boards in memory.
    fn is_fake(&self) -> (r: bool)
        ensures
            r == self.reliable(),
    ;

    /// Read one keymap entry; absent entries read as 0 (no mapping).
    fn keymap_get(&self, board: BoardId, layer: u8, output: u8, input: u8) -> (r: Result<
        u16,
        String,
    >)
        ensures
            r matches Ok(v) ==> valid_board(self.boards_model(), board) && v
                == self.boards_model()[board.0 as int].keymap[(layer, output, input)],
            self.reliable() ==> (r is Ok <==> valid_board(self.boards_model(), board)),
    ;

    /// Write one keymap entry. Writes are immediate and not transactional:
    /// on failure, at most the addressed entry is in an unknown state.
    fn keymap_set(&mut self, board: BoardId, layer: u8, output: u8, input: u8, value: u16) -> (r:
        Result<(), String>)
        ensures
            final(self).reliable() == old(self).reliable(),
            same_boards_except(
                old(self).boards_model(),
                final(self).boards_model(),
                board.0 as int,
            ),
            r is Ok ==> valid_board(old(self).boards_model(), board) && keymap_only_change(
                old(self).boards_model()[board.0 as int],
                final(self).boards_model()[board.0 as int],
            ) && final(self).boards_model()[board.0 as int].keymap
                == old(self).boards_model()[board.0 as int].keymap.insert(
                (layer, output, input),
                value,
            ),
            r is Err && valid_board(old(self).boards_model(), board) ==> keymap_only_change(
                old(self).boards_model()[board.0 as int],
                final(self).boards_model()[board.0 as int],
            ) && forall|q: (u8, u8, u8)|
                q != (layer, output, input) ==> final(self).boards_model()[board.0 as int].keymap[q]
                    == old(self).boards_model()[board.0 as int].keymap[q],
            r is Err && !valid_board(old(self).boards_model(), board) ==> final(self).boards_model()
                == old(self).boards_model(),
            old(self).reliable() ==> (r is Ok <==> valid_board(old(self).boards_model(), board)),
    ;

    /// A single raw electrical snapshot of the key matrix. The board id is
    /// not validated by this read: a simulated implementation answers for
    /// any id with the empty snapshot, having no electrical state.
    fn matrix_get(&self, board: BoardId) -> (r: Result<Matrix, String>)
        ensures
            r matches Ok(m) ==> m.wf(),
            self.reliable() ==> r is Ok,
            self.reliable() ==> (r matches Ok(m) ==> m.spec_rows() == 0 && m.spec_cols() == 0),
    ;

    /// Read the lighting color; only the whole-keyboard index is modeled.
    fn color(&self, board: BoardId, index: u8) -> (r: Result<Hs, String>)
        ensures
            r matches Ok(c) ==> valid_board(self.boards_model(), board) && (index
                == WHOLE_KEYBOARD ==> c == self.boards_model()[board.0 as int].color),
            self.reliable() ==> (r is Ok <==> valid_board(self.boards_model(), board) && index
                == WHOLE_KEYBOARD),
    ;

    /// Set the lighting color.
    fn set_color(&mut self, board: BoardId, index: u8, color: Hs) -> (r: Result<(), String>)
        ensures
            final(self).reliable() == old(self).reliable(),
            same_boards_except(
                old(self).boards_model(),
                final(self).boards_model(),
                board.0 as int,
            ),
            r is Ok && index == WHOLE_KEYBOARD ==> valid_board(old(self).boards_model(), board)
                && final(self).boards_model() == old(self).boards_model().update(
                board.0 as int,
                BoardModel { color, ..old(self).boards_model()[board.0 as int] },
            ),
            r is Err ==> final(self).boards_model() == old(self).boards_model(),
            old(self).reliable() ==> (r is Ok <==> valid_board(old(self).boards_model(), board)
                && index == WHOLE_KEYBOARD),
    ;

    /// The brightest setting the board supports. The board id is not
    /// validated by this read: a simulated implementation answers for any
    /// id, all its boards sharing one fixed maximum.
    fn max_brightness(&self, board: BoardId) -> (r: Result<i32, String>)
        ensures
            r matches Ok(v) ==> (valid_board(self.boards_model(), board) ==> v
                == self.boards_model()[board.0 as int].max_brightness),
            self.reliable() ==> r is Ok,
    ;

    /// Read the backlight brightness; same index convention as `color`.
    fn brightness(&self, board: BoardId, index: u8) -> (r: Result<i32, String>)
        ensures
            r matches Ok(v) ==> valid_board(self.boards_model(), board) && (index
                == WHOLE_KEYBOARD ==> v == self.boards_model()[board.0 as int].brightness),
            self.reliable() ==> (r is Ok <==> valid_board(self.boards_model(), board) && index
                == WHOLE_KEYBOARD),
    ;

    /// Set the backlight brightness.
    fn set_brightness(&mut self, board: BoardId, index: u8, brightness: i32) -> (r: Result<
        (),
        String,
    >)
        ensures
            final(self).reliable() == old(self).reliable(),
            same_boards_except(
                old(self).boards_model(),
                final(self).boards_model(),
                board.0 as int,
            ),
            r is Ok && index == WHOLE_KEYBOARD ==> valid_board(old(self).boards_model(), board)
                && final(self).boards_model() == old(self).boards_model().update(
                board.0 as int,
                BoardModel { brightness, ..old(self).boards_model()[board.0 as int] },
            ),
            r is Err ==> final(self).boards_model() == old(self).boards_model(),
            old(self).reliable() ==> (r is Ok <==> valid_board(old(self).boards_model(), board)
                && index == WHOLE_KEYBOARD),
    ;

    /// Read the lighting effect and its speed.
    fn mode(&self, board: BoardId) -> (r: Result<(u8, u8), String>)
        ensures
            r matches Ok(ms) ==> valid_board(self.boards_model(), board) && ms.0
                == self.boards_model()[board.0 as int].mode && ms.1
                == self.boards_model()[board.0 as int].speed,
            self.reliable() ==> (r is Ok <==> valid_board(self.boards_model(), board)),
    ;

    /// Set the lighting effect and its speed.
    fn set_mode(&mut self, board: BoardId, mode: u8, speed: u8) -> (r: Result<(), String>)
        ensures
            final(self).reliable() == old(self).reliable(),
            same_boards_except(
                old(self).boards_model(),
                final(self).boards_model(),
                board.0 as int,
            ),
            r is Ok ==> valid_board(old(self).boards_model(), board) && final(self).boards_model()
                == old(self).boards_model().update(
                board.0 as int,
                BoardModel { mode, speed, ..old(self).boards_model()[board.0 as int] },
            ),
            r is Err ==> final(self).boards_model() == old(self).boards_model(),
            old(self).reliable() ==> (r is Ok <==> valid_board(old(self).boards_model(), board)),
    ;

    /// One diagnostic sampling round; `kind` selects the stimulus pattern
    /// the firmware performs before sampling. Device keymap state is not
    /// touched. A simulated board's sample is empty, and so reports no
    /// fault.
    fn selma(&self, board: BoardId, kind: SelmaKind) -> (r: Result<Selma, String>)
        ensures
            r matches Ok(s) ==> valid_board(self.boards_model(), board) && s.wf(),
            self.reliable() ==> (r is Ok <==> valid_board(self.boards_model(), board)),
            self.reliable() ==> (r matches Ok(s) ==> s.max_rows_spec() == 0 && s.max_cols_spec()
                == 0 && s.all_clear()),
    ;

    /// One benchmark round over all known ports: a successful round
    /// reports every port exactly once, in table order.
    fn benchmark(&self, board: BoardId) -> (r: Result<Benchmark, String>)
        ensures
            r matches Ok(round) ==> valid_board(self.boards_model(), board) && covers_all_ports(
                &round,
            ),
    ;

    /// Best-effort device-side teardown signal; failure is non-fatal.
    fn exit(&self) -> (r: Result<(), String>)
        ensures
            self.reliable() ==> r is Ok,
    ;
}

} // verus!
