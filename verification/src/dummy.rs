//! A process-local simulated board: implements the full `Daemon` contract
//! purely over in-memory state, for testing and offline development.

use vstd::prelude::*;

use crate::bench::Benchmark;
use crate::color::Hs;
use crate::daemon::{valid_board, BoardId, BoardModel, Daemon, WHOLE_KEYBOARD};
use crate::matrix::Matrix;
use crate::selma::{Selma, SelmaKind};

verus! {

/// One recorded keymap write. Later entries shadow earlier ones for the
/// same position, so a write is a plain append.
#[derive(Clone, Copy, Debug)]
struct KeymapEntry {
    layer: u8,
    output: u8,
    input: u8,
    value: u16,
}

/// The scancode a write log assigns to a position: the value of the last
/// entry for that position, or 0 when none was ever written.
spec fn lookup(entries: Seq<KeymapEntry>, k: (u8, u8, u8)) -> u16
    decreases entries.len(),
{
    if entries.len() == 0 {
        0u16
    } else if entries.last().layer == k.0 && entries.last().output == k.1 && entries.last().input
        == k.2 {
        entries.last().value
    } else {
        lookup(entries.drop_last(), k)
    }
}

/// The total keymap a write log denotes.
spec fn keymap_of(entries: Seq<KeymapEntry>) -> Map<(u8, u8, u8), u16> {
    Map::new(|k: (u8, u8, u8)| true, |k: (u8, u8, u8)| lookup(entries, k))
}

/// Appending one write updates exactly the written position.
proof fn lemma_lookup_push(entries: Seq<KeymapEntry>, e: KeymapEntry)
    ensures
        keymap_of(entries.push(e)) =~= keymap_of(entries).insert(
            (e.layer, e.output, e.input),
            e.value,
        ),
{
    assert(entries.push(e).drop_last() =~= entries);
    assert forall|k: (u8, u8, u8)| #[trigger] keymap_of(entries.push(e))[k] == keymap_of(
        entries,
    ).insert((e.layer, e.output, e.input), e.value)[k] by {
        if k == (e.layer, e.output, e.input) {
            assert(lookup(entries.push(e), k) == e.value);
        } else {
            assert(lookup(entries.push(e), k) == lookup(entries, k));
        }
    }
}

/// In-memory state of one simulated board.
struct BoardDummy {
    name: String,
    keymap: Vec<KeymapEntry>,
    color: Hs,
    brightness: i32,
    mode: (u8, u8),
}

/// The brightest setting a simulated board reports.
pub const DUMMY_MAX_BRIGHTNESS: i32 = 100;

impl BoardDummy {
    spec fn model(&self) -> BoardModel {
        BoardModel {
            name: self.name@,
            keymap: keymap_of(self.keymap@),
            color: self.color,
            brightness: self.brightness,
            max_brightness: DUMMY_MAX_BRIGHTNESS as i32,
            mode: self.mode.0,
            speed: self.mode.1,
        }
    }
}

/// A daemon whose boards are simulated in memory.
pub struct DaemonDummy {
    boards: Vec<BoardDummy>,
}

/// The keymap in which no position has a mapping.
pub open spec fn empty_keymap() -> Map<(u8, u8, u8), u16> {
    Map::new(|k: (u8, u8, u8)| true, |k: (u8, u8, u8)| 0u16)
}

impl DaemonDummy {
    /// One fresh simulated board per requested name: empty keymap, default
    /// color, zero brightness, default mode.
    pub fn new(board_names: Vec<String>) -> (d: Self)
        ensures
            d.reliable(),
            d.boards_model().len() == board_names@.len(),
            forall|i: int|
                0 <= i < board_names@.len() ==> (#[trigger] d.boards_model()[i]) == (BoardModel {
                    name: board_names@[i]@,
                    keymap: empty_keymap(),
                    color: Hs { h: 0, s: 0 },
                    brightness: 0,
                    max_brightness: DUMMY_MAX_BRIGHTNESS as i32,
                    mode: 0,
                    speed: 0,
                }),
    {
        let ghost all_names = board_names@;
        let mut names = board_names;
        let mut boards: Vec<BoardDummy> = Vec::new();
        proof {
            assert(names@ =~= all_names.skip(0));
        }
        while names.len() > 0
            invariant
                boards@.len() + names@.len() == all_names.len(),
                names@ =~= all_names.skip(boards@.len() as int),
                forall|i: int|
                    0 <= i < boards@.len() ==> (#[trigger] boards@[i].model()) == (BoardModel {
                        name: all_names[i]@,
                        keymap: empty_keymap(),
                        color: Hs { h: 0, s: 0 },
                        brightness: 0,
                        max_brightness: DUMMY_MAX_BRIGHTNESS as i32,
                        mode: 0,
                        speed: 0,
                    }),
            decreases names@.len(),
        {
            let name = names.remove(0);
            proof {
                assert(all_names[boards@.len() as int] == name);
            }
            let board = BoardDummy {
                name,
                keymap: Vec::new(),
                color: Hs { h: 0, s: 0 },
                brightness: 0,
                mode: (0, 0),
            };
            proof {
                assert(board.model().keymap =~= empty_keymap());
            }
            boards.push(board);
            proof {
                assert(names@ =~= all_names.skip(boards@.len() as int));
            }
        }
        let d = DaemonDummy { boards };
        proof {
            assert forall|i: int| 0 <= i < all_names.len() implies (#[trigger] d.boards_model()[i])
                == (BoardModel {
                name: all_names[i]@,
                keymap: empty_keymap(),
                color: Hs { h: 0, s: 0 },
                brightness: 0,
                max_brightness: DUMMY_MAX_BRIGHTNESS as i32,
                mode: 0,
                speed: 0,
            }) by {
                assert(d.boards_model()[i] == d.boards@[i].model());
            }
        }
        d
    }

    /// The simulated board a handle refers to.
    fn board(&self, board: BoardId) -> (r: Result<&BoardDummy, String>)
        ensures
            r matches Ok(b) ==> board.0 < self.boards@.len() && *b == self.boards@[board.0 as int],
            r is Ok <==> board.0 < self.boards@.len(),
    {
        if board.0 < self.boards.len() as u128 {
            Ok(&self.boards[board.0 as usize])
        } else {
            Err(String::from_str("No board"))
        }
    }
}

impl Daemon for DaemonDummy {
    closed spec fn boards_model(&self) -> Seq<BoardModel> {
        self.boards@.map_values(|b: BoardDummy| b.model())
    }

    closed spec fn reliable(&self) -> bool {
        true
    }

    fn boards(&self) -> (r: Result<Vec<BoardId>, String>) {
        let n = self.boards.len();
        let mut ids: Vec<BoardId> = Vec::new();
        let mut i: usize = 0;
        while i < n
            invariant
                i <= n,
                ids@.len() == i,
                forall|j: int| 0 <= j < i ==> (#[trigger] ids@[j]).0 == j,
            decreases n - i,
        {
            ids.push(BoardId(i as u128));
            i = i + 1;
        }
        Ok(ids)
    }

    fn model(&self, board: BoardId) -> (r: Result<String, String>) {
        match self.board(board) {
            Ok(b) => {
                proof {
                    assert(self.boards_model()[board.0 as int] == self.boards@[board.0 as int].model());
                }
                Ok(b.name.clone())
            },
            Err(e) => Err(e),
        }
    }

    fn is_fake(&self) -> (r: bool) {
        true
    }

    fn keymap_get(&self, board: BoardId, layer: u8, output: u8, input: u8) -> (r: Result<
        u16,
        String,
    >) {
        match self.board(board) {
            Ok(b) => {
                proof {
                    assert(self.boards_model()[board.0 as int] == self.boards@[board.0 as int].model());
                }
                Ok(keymap_lookup(&b.keymap, layer, output, input))
            },
            Err(e) => Err(e),
        }
    }

    fn keymap_set(&mut self, board: BoardId, layer: u8, output: u8, input: u8, value: u16) -> (r:
        Result<(), String>) {
        if board.0 >= self.boards.len() as u128 {
            return Err(String::from_str("No board"));
        }
        let idx = board.0 as usize;
        let ghost pre = self.boards@;
        let mut b = self.boards.remove(idx);
        let ghost pre_entries = b.keymap@;
        let entry = KeymapEntry { layer, output, input, value };
        b.keymap.push(entry);
        self.boards.insert(idx, b);
        proof {
            assert(self.boards@ =~= pre.update(idx as int, self.boards@[idx as int]));
            lemma_lookup_push(pre_entries, entry);
            assert(self.boards_model()[idx as int].keymap =~= pre[idx as int].model().keymap.insert(
                (layer, output, input),
                value,
            ));
            assert forall|i: int|
                0 <= i < pre.len() && i != idx implies #[trigger] self.boards_model()[i] == old(
                self,
            ).boards_model()[i] by {}
        }
        Ok(())
    }

    fn matrix_get(&self, _board: BoardId) -> (r: Result<Matrix, String>) {
        Ok(Matrix::new(0, 0, Vec::new()))
    }

    fn color(&self, board: BoardId, index: u8) -> (r: Result<Hs, String>) {
        if index != WHOLE_KEYBOARD {
            return Err(String::from_str("Can't get color index"));
        }
        match self.board(board) {
            Ok(b) => {
                proof {
                    assert(self.boards_model()[board.0 as int] == self.boards@[board.0 as int].model());
                }
                Ok(b.color)
            },
            Err(e) => Err(e),
        }
    }

    fn set_color(&mut self, board: BoardId, index: u8, color: Hs) -> (r: Result<(), String>) {
        if index != WHOLE_KEYBOARD {
            return Err(String::from_str("Can't set color index"));
        }
        if board.0 >= self.boards.len() as u128 {
            return Err(String::from_str("No board"));
        }
        let idx = board.0 as usize;
        let ghost pre = self.boards@;
        let mut b = self.boards.remove(idx);
        b.color = color;
        self.boards.insert(idx, b);
        proof {
            assert(self.boards@ =~= pre.update(idx as int, self.boards@[idx as int]));
            assert(self.boards_model() =~~= old(self).boards_model().update(
                idx as int,
                BoardModel { color, ..old(self).boards_model()[idx as int] },
            ));
        }
        Ok(())
    }

    fn max_brightness(&self, board: BoardId) -> (r: Result<i32, String>) {
        proof {
            if valid_board(self.boards_model(), board) {
                assert(self.boards_model()[board.0 as int] == self.boards@[board.0 as int].model());
            }
        }
        Ok(DUMMY_MAX_BRIGHTNESS)
    }

    fn brightness(&self, board: BoardId, index: u8) -> (r: Result<i32, String>) {
        if index != WHOLE_KEYBOARD {
            return Err(String::from_str("Can't get brightness index"));
        }
        match self.board(board) {
            Ok(b) => {
                proof {
                    assert(self.boards_model()[board.0 as int] == self.boards@[board.0 as int].model());
                }
                Ok(b.brightness)
            },
            Err(e) => Err(e),
        }
    }

    fn set_brightness(&mut self, board: BoardId, index: u8, brightness: i32) -> (r: Result<
        (),
        String,
    >) {
        if index != WHOLE_KEYBOARD {
            return Err(String::from_str("Can't set brightness index"));
        }
        if board.0 >= self.boards.len() as u128 {
            return Err(String::from_str("No board"));
        }
        let idx = board.0 as usize;
        let ghost pre = self.boards@;
        let mut b = self.boards.remove(idx);
        b.brightness = brightness;
        self.boards.insert(idx, b);
        proof {
            assert(self.boards@ =~= pre.update(idx as int, self.boards@[idx as int]));
            assert(self.boards_model() =~~= old(self).boards_model().update(
                idx as int,
                BoardModel { brightness, ..old(self).boards_model()[idx as int] },
            ));
        }
        Ok(())
    }

    fn mode(&self, board: BoardId) -> (r: Result<(u8, u8), String>) {
        match self.board(board) {
            Ok(b) => {
                proof {
                    assert(self.boards_model()[board.0 as int] == self.boards@[board.0 as int].model());
                }
                Ok(b.mode)
            },
            Err(e) => Err(e),
        }
    }

    fn set_mode(&mut self, board: BoardId, mode: u8, speed: u8) -> (r: Result<(), String>) {
        if board.0 >= self.boards.len() as u128 {
            return Err(String::from_str("No board"));
        }
        let idx = board.0 as usize;
        let ghost pre = self.boards@;
        let mut b = self.boards.remove(idx);
        b.mode = (mode, speed);
        self.boards.insert(idx, b);
        proof {
            assert(self.boards@ =~= pre.update(idx as int, self.boards@[idx as int]));
            assert(self.boards_model() =~~= old(self).boards_model().update(
                idx as int,
                BoardModel { mode, speed, ..old(self).boards_model()[idx as int] },
            ));
        }
        Ok(())
    }

    fn selma(&self, board: BoardId, kind: SelmaKind) -> (r: Result<Selma, String>) {
        match self.board(board) {
            Ok(_) => Ok(
                Selma {
                    missing: Matrix::new(0, 0, Vec::new()),
                    bouncing: Matrix::new(0, 0, Vec::new()),
                    sticking: Matrix::new(0, 0, Vec::new()),
                },
            ),
            Err(e) => Err(e),
        }
    }

    fn benchmark(&self, board: BoardId) -> (r: Result<Benchmark, String>) {
        match self.board(board) {
            Ok(_) => Err(String::from_str("Benchmarking not supported on this board")),
            Err(e) => Err(e),
        }
    }

    fn exit(&self) -> (r: Result<(), String>) {
        Ok(())
    }
}

/// Scan the write log backwards for the newest entry at a position.
fn keymap_lookup(entries: &Vec<KeymapEntry>, layer: u8, output: u8, input: u8) -> (r: u16)
    ensures
        r == lookup(entries@, (layer, output, input)),
{
    let ghost k = (layer, output, input);
    let mut i: usize = entries.len();
    proof {
        assert(entries@.take(i as int) =~= entries@);
    }
    while i > 0
        invariant
            i <= entries@.len(),
            lookup(entries@, k) == lookup(entries@.take(i as int), k),
            k == (layer, output, input),
        decreases i,
    {
        i = i - 1;
        let e = &entries[i];
        proof {
            assert(entries@.take(i as int + 1).last() == entries@[i as int]);
            assert(entries@.take(i as int + 1).drop_last() =~= entries@.take(i as int));
        }
        if e.layer == layer && e.output == output && e.input == input {
            return e.value;
        }
    }
    proof {
        assert(entries@.take(0) =~= Seq::<KeymapEntry>::empty());
    }
    0
}

} // verus!
