//! The diagnostic harness: the per-cell color-classification map published
//! after every poll, the soak-test loop, and the keymap transaction that
//! saves, clears and restores the device keymap around a run.

use vstd::prelude::*;

use crate::color::Rgb;
use crate::daemon::{same_boards_except, same_keymap, valid_board, BoardId, Daemon};
use crate::keymap::{export_keymap, import_keymap, layout_pos, pos_in_layout, KeyMap, Layout};
use crate::matrix::Matrix;
use crate::selma::{Selma, SelmaKind};

verus! {

/// The display key of one recorded cell.
spec fn ckey(e: (usize, usize, Rgb)) -> (usize, usize) {
    (e.0, e.1)
}

/// The color the record assigns to a cell: the newest entry for that cell.
spec fn cget(s: Seq<(usize, usize, Rgb)>, k: (usize, usize)) -> Option<Rgb>
    decreases s.len(),
{
    if s.len() == 0 {
        None
    } else if ckey(s.last()) == k {
        Some(s.last().2)
    } else {
        cget(s.drop_last(), k)
    }
}

/// No two recorded cells share a position.
spec fn distinct_keys(s: Seq<(usize, usize, Rgb)>) -> bool {
    forall|i: int, j: int| 0 <= i < j < s.len() ==> ckey(s[i]) != ckey(s[j])
}

proof fn lemma_cget_absent(s: Seq<(usize, usize, Rgb)>, k: (usize, usize))
    requires
        forall|i: int| 0 <= i < s.len() ==> ckey(#[trigger] s[i]) != k,
    ensures
        cget(s, k) is None,
    decreases s.len(),
{
    if s.len() > 0 {
        lemma_cget_absent(s.drop_last(), k);
    }
}

proof fn lemma_cget_found(s: Seq<(usize, usize, Rgb)>, j: int, k: (usize, usize))
    requires
        distinct_keys(s),
        0 <= j < s.len(),
        ckey(s[j]) == k,
    ensures
        cget(s, k) == Some(s[j].2),
    decreases s.len(),
{
    if j == s.len() - 1 {
    } else {
        lemma_cget_found(s.drop_last(), j, k);
    }
}

proof fn lemma_cget_update(s: Seq<(usize, usize, Rgb)>, j: int, e: (usize, usize, Rgb))
    requires
        distinct_keys(s),
        0 <= j < s.len(),
        ckey(s[j]) == ckey(e),
    ensures
        distinct_keys(s.update(j, e)),
        forall|k: (usize, usize)| #[trigger]
            cget(s.update(j, e), k) == if k == ckey(e) {
                Some(e.2)
            } else {
                cget(s, k)
            },
    decreases s.len(),
{
    let t = s.update(j, e);
    assert forall|i1: int, i2: int| 0 <= i1 < i2 < t.len() implies ckey(t[i1]) != ckey(t[i2]) by {
        assert(ckey(t[i1]) == ckey(s[i1]) && ckey(t[i2]) == ckey(s[i2]));
    }
    assert forall|k: (usize, usize)| #[trigger]
        cget(t, k) == (if k == ckey(e) {
            Some(e.2)
        } else {
            cget(s, k)
        }) by {
        if j == s.len() - 1 {
            assert(t.last() == e);
            assert(t.drop_last() =~= s.drop_last());
            if k != ckey(e) {
                assert(cget(t, k) == cget(t.drop_last(), k));
                assert(cget(s, k) == cget(s.drop_last(), k));
            }
        } else {
            assert(distinct_keys(s.drop_last())) by {
                assert forall|i1: int, i2: int|
                    0 <= i1 < i2 < s.drop_last().len() implies ckey(s.drop_last()[i1]) != ckey(
                    s.drop_last()[i2],
                ) by {
                    assert(ckey(s.drop_last()[i1]) == ckey(s[i1]));
                    assert(ckey(s.drop_last()[i2]) == ckey(s[i2]));
                }
            }
            lemma_cget_update(s.drop_last(), j, e);
            assert(t.drop_last() =~= s.drop_last().update(j, e));
            assert(t.last() == s.last());
            assert(ckey(s[j]) != ckey(s.last()));
            if k == ckey(s.last()) {
                assert(cget(t, k) == Some(s.last().2));
                assert(cget(s, k) == Some(s.last().2));
            } else {
                assert(cget(t, k) == cget(s.drop_last().update(j, e), k));
                assert(cget(s, k) == cget(s.drop_last(), k));
            }
        }
    }
}

proof fn lemma_cget_remove(s: Seq<(usize, usize, Rgb)>, j: int)
    requires
        distinct_keys(s),
        0 <= j < s.len(),
    ensures
        distinct_keys(s.remove(j)),
        forall|k: (usize, usize)| #[trigger]
            cget(s.remove(j), k) == if k == ckey(s[j]) {
                None
            } else {
                cget(s, k)
            },
    decreases s.len(),
{
    let t = s.remove(j);
    assert forall|i1: int, i2: int| 0 <= i1 < i2 < t.len() implies ckey(t[i1]) != ckey(t[i2]) by {
        let m1: int = if i1 < j {
            i1
        } else {
            i1 + 1
        };
        let m2: int = if i2 < j {
            i2
        } else {
            i2 + 1
        };
        assert(ckey(t[i1]) == ckey(s[m1]) && ckey(t[i2]) == ckey(s[m2]));
    }
    assert forall|k: (usize, usize)| #[trigger]
        cget(t, k) == (if k == ckey(s[j]) {
            None
        } else {
            cget(s, k)
        }) by {
        if j == s.len() - 1 {
            assert(t =~= s.drop_last());
            if k == ckey(s[j]) {
                assert forall|i: int| 0 <= i < t.len() implies ckey(#[trigger] t[i]) != k by {
                    assert(ckey(t[i]) == ckey(s[i]));
                }
                lemma_cget_absent(t, k);
            } else {
                assert(cget(s, k) == cget(s.drop_last(), k));
            }
        } else {
            assert(distinct_keys(s.drop_last())) by {
                assert forall|i1: int, i2: int|
                    0 <= i1 < i2 < s.drop_last().len() implies ckey(s.drop_last()[i1]) != ckey(
                    s.drop_last()[i2],
                ) by {
                    assert(ckey(s.drop_last()[i1]) == ckey(s[i1]));
                    assert(ckey(s.drop_last()[i2]) == ckey(s[i2]));
                }
            }
            lemma_cget_remove(s.drop_last(), j);
            assert(t.drop_last() =~= s.drop_last().remove(j));
            assert(t.last() == s.last());
            assert(ckey(s[j]) != ckey(s.last()));
            if k == ckey(s.last()) {
                assert(cget(t, k) == Some(s.last().2));
                assert(cget(s, k) == Some(s.last().2));
            } else {
                assert(cget(t, k) == cget(s.drop_last().remove(j), k));
                assert(cget(s, k) == cget(s.drop_last(), k));
            }
        }
    }
}

proof fn lemma_cget_some_has_entry(s: Seq<(usize, usize, Rgb)>, k: (usize, usize))
    requires
        cget(s, k) is Some,
    ensures
        exists|i: int|
            0 <= i < s.len() && ckey(#[trigger] s[i]) == k && s[i].2 == cget(s, k).unwrap(),
    decreases s.len(),
{
    if ckey(s.last()) == k {
        assert(ckey(s[s.len() - 1]) == k);
    } else {
        lemma_cget_some_has_entry(s.drop_last(), k);
        let i = choose|i: int|
            0 <= i < s.drop_last().len() && ckey(#[trigger] s.drop_last()[i]) == k
                && s.drop_last()[i].2 == cget(s.drop_last(), k).unwrap();
        assert(ckey(s[i]) == k && s[i].2 == cget(s, k).unwrap());
    }
}

proof fn lemma_cget_push(s: Seq<(usize, usize, Rgb)>, e: (usize, usize, Rgb))
    ensures
        forall|k: (usize, usize)| #[trigger]
            cget(s.push(e), k) == if k == ckey(e) {
                Some(e.2)
            } else {
                cget(s, k)
            },
{
    assert(s.push(e).drop_last() =~= s);
    assert(s.push(e).last() == e);
}

/// The sparse cell-to-color mapping published after every diagnostic poll,
/// so a display layer can redraw key state without re-deriving it.
pub struct TestingColors {
    cells: Vec<(usize, usize, Rgb)>,
}

impl TestingColors {
    pub closed spec fn wf(&self) -> bool {
        distinct_keys(self.cells@)
    }

    pub closed spec fn view(&self) -> Map<(usize, usize), Rgb> {
        Map::new(
            |k: (usize, usize)| cget(self.cells@, k) is Some,
            |k: (usize, usize)| cget(self.cells@, k).unwrap(),
        )
    }

    /// An empty color map: no cell is classified.
    pub fn new() -> (r: TestingColors)
        ensures
            r.wf(),
            r@ == Map::<(usize, usize), Rgb>::empty(),
    {
        let r = TestingColors { cells: Vec::new() };
        proof {
            assert(r@ =~= Map::<(usize, usize), Rgb>::empty());
        }
        r
    }

    /// The index of the record for a cell, if one exists.
    fn find(&self, row: usize, col: usize) -> (r: Option<usize>)
        ensures
            r matches Some(j) ==> j < self.cells@.len() && ckey(self.cells@[j as int]) == (
            row,
            col,
            ),
            r is None ==> forall|i: int|
                0 <= i < self.cells@.len() ==> ckey(#[trigger] self.cells@[i]) != (row, col),
    {
        let n = self.cells.len();
        let mut i: usize = 0;
        while i < n
            invariant
                i <= n,
                n == self.cells@.len(),
                forall|j: int| 0 <= j < i ==> ckey(#[trigger] self.cells@[j]) != (row, col),
            decreases n - i,
        {
            let e = &self.cells[i];
            if e.0 == row && e.1 == col {
                return Some(i);
            }
            i = i + 1;
        }
        None
    }

    /// The recorded color of a cell, if any.
    pub fn get(&self, row: usize, col: usize) -> (r: Option<Rgb>)
        requires
            self.wf(),
        ensures
            r matches Some(rgb) ==> self@.dom().contains((row, col)) && self@[(row, col)] == rgb,
            r is None ==> !self@.dom().contains((row, col)),
    {
        match self.find(row, col) {
            Some(j) => {
                proof {
                    lemma_cget_found(self.cells@, j as int, (row, col));
                }
                Some(self.cells[j].2)
            },
            None => {
                proof {
                    lemma_cget_absent(self.cells@, (row, col));
                }
                None
            },
        }
    }

    /// The recorded cells, for a display layer to redraw from: every entry
    /// is in the mapping, and every mapped cell has exactly one entry.
    pub fn entries(&self) -> (r: &Vec<(usize, usize, Rgb)>)
        requires
            self.wf(),
        ensures
            forall|i: int|
                0 <= i < r@.len() ==> self@.contains_pair(
                    ((#[trigger] r@[i]).0, r@[i].1),
                    r@[i].2,
                ),
            forall|k: (usize, usize)| #[trigger]
                self@.dom().contains(k) ==> exists|i: int|
                    0 <= i < r@.len() && ((#[trigger] r@[i]).0, r@[i].1) == k,
            forall|i: int, j: int|
                0 <= i < j < r@.len() ==> ((#[trigger] r@[i]).0, r@[i].1) != ((#[trigger] r@[j]).0, r@[j].1),
    {
        proof {
            assert forall|i: int| 0 <= i < self.cells@.len() implies self@.contains_pair(
                ckey(self.cells@[i]),
                self.cells@[i].2,
            ) by {
                lemma_cget_found(self.cells@, i, ckey(self.cells@[i]));
            }
            assert forall|k: (usize, usize)| #[trigger] self@.dom().contains(k) implies exists|
                i: int,
            |
                0 <= i < self.cells@.len() && ckey(#[trigger] self.cells@[i]) == k by {
                lemma_cget_some_has_entry(self.cells@, k);
            }
        }
        &self.cells
    }

    /// Record (or replace) the color of a cell.
    pub fn insert(&mut self, row: usize, col: usize, color: Rgb)
        requires
            old(self).wf(),
        ensures
            final(self).wf(),
            final(self)@ == old(self)@.insert((row, col), color),
    {
        let e = (row, col, color);
        match self.find(row, col) {
            Some(j) => {
                proof {
                    lemma_cget_update(self.cells@, j as int, e);
                }
                self.cells[j] = e;
            },
            None => {
                proof {
                    lemma_cget_push(self.cells@, e);
                    assert forall|i1: int, i2: int|
                        0 <= i1 < i2 < self.cells@.push(e).len() implies ckey(
                        self.cells@.push(e)[i1],
                    ) != ckey(self.cells@.push(e)[i2]) by {
                        if i2 == self.cells@.len() {
                            assert(ckey(self.cells@.push(e)[i1]) == ckey(self.cells@[i1]));
                        }
                    }
                }
                self.cells.push(e);
            },
        }
        proof {
            assert(final(self)@ =~= old(self)@.insert((row, col), color));
        }
    }

    /// Clear the recorded color of a cell, if any.
    pub fn remove(&mut self, row: usize, col: usize)
        requires
            old(self).wf(),
        ensures
            final(self).wf(),
            final(self)@ == old(self)@.remove((row, col)),
    {
        match self.find(row, col) {
            Some(j) => {
                proof {
                    lemma_cget_remove(self.cells@, j as int);
                }
                self.cells.remove(j);
            },
            None => {
                proof {
                    lemma_cget_absent(self.cells@, (row, col));
                }
            },
        }
        proof {
            assert(final(self)@ =~= old(self)@.remove((row, col)));
        }
    }
}

/// A cell reports a fault in this matrix: in bounds and set. Out-of-bounds
/// positions carry no signal.
pub open spec fn cell_flag(m: &Matrix, r: int, c: int) -> bool {
    r < m.spec_rows() && c < m.spec_cols() && m.cell(r, c)
}

/// The display color classification of one cell of a sample: red for
/// missing, green for sticking, blue for bouncing, combined additively;
/// no color when no flag is set.
pub open spec fn cell_color(s: &Selma, r: int, c: int) -> Option<Rgb> {
    let red = cell_flag(&s.missing, r, c);
    let green = cell_flag(&s.sticking, r, c);
    let blue = cell_flag(&s.bouncing, r, c);
    if red || green || blue {
        Some(
            Rgb {
                r: if red {
                    255
                } else {
                    0
                },
                g: if green {
                    255
                } else {
                    0
                },
                b: if blue {
                    255
                } else {
                    0
                },
            },
        )
    } else {
        None
    }
}

/// The color map shows exactly the classification of the sample over the
/// sample's own grid.
pub open spec fn classified(s: Selma, m: Map<(usize, usize), Rgb>) -> bool {
    forall|r: usize, c: usize|
        r < s.max_rows_spec() && c < s.max_cols_spec() ==> match #[trigger] cell_color(
            &s,
            r as int,
            c as int,
        ) {
            Some(rgb) => m.dom().contains((r, c)) && m[(r, c)] == rgb,
            None => !m.dom().contains((r, c)),
        }
}

/// Recolor every cell of the sample grid: faulted cells get their
/// classification color, clean cells are cleared. Cells outside the
/// sample's grid are left as they were.
pub fn classify_sample(s: &Selma, colors: &mut TestingColors)
    requires
        s.wf(),
        old(colors).wf(),
    ensures
        final(colors).wf(),
        classified(*s, final(colors)@),
        forall|r: usize, c: usize|
            !(r < s.max_rows_spec() && c < s.max_cols_spec())
                ==> (#[trigger] final(colors)@.dom().contains((r, c)) == old(
                colors,
            )@.dom().contains((r, c)) && (old(colors)@.dom().contains((r, c)) ==> final(colors)@[(
                r,
                c,
            )] == old(colors)@[(r, c)])),
{
    let rows = s.max_rows();
    let cols = s.max_cols();
    let mut row: usize = 0;
    while row < rows
        invariant
            s.wf(),
            colors.wf(),
            rows == s.max_rows_spec(),
            cols == s.max_cols_spec(),
            row <= rows,
            forall|r: usize, c: usize|
                r < row && c < cols ==> match #[trigger] cell_color(s, r as int, c as int) {
                    Some(rgb) => colors@.dom().contains((r, c)) && colors@[(r, c)] == rgb,
                    None => !colors@.dom().contains((r, c)),
                },
            forall|r: usize, c: usize|
                !(r < rows && c < cols)
                    ==> (#[trigger] colors@.dom().contains((r, c)) == old(colors)@.dom().contains(
                    (r, c),
                ) && (old(colors)@.dom().contains((r, c)) ==> colors@[(r, c)] == old(colors)@[(
                    r,
                    c,
                )])),
        decreases rows - row,
    {
        let mut col: usize = 0;
        while col < cols
            invariant
                s.wf(),
                colors.wf(),
                rows == s.max_rows_spec(),
                cols == s.max_cols_spec(),
                row < rows,
                col <= cols,
                forall|r: usize, c: usize|
                    r < row && c < cols ==> match #[trigger] cell_color(s, r as int, c as int) {
                        Some(rgb) => colors@.dom().contains((r, c)) && colors@[(r, c)] == rgb,
                        None => !colors@.dom().contains((r, c)),
                    },
                forall|c: usize|
                    c < col ==> match #[trigger] cell_color(s, row as int, c as int) {
                        Some(rgb) => colors@.dom().contains((row, c)) && colors@[(row, c)]
                            == rgb,
                        None => !colors@.dom().contains((row, c)),
                    },
                forall|r: usize, c: usize|
                    !(r < rows && c < cols)
                        ==> (#[trigger] colors@.dom().contains((r, c)) == old(
                        colors,
                    )@.dom().contains((r, c)) && (old(colors)@.dom().contains((r, c))
                        ==> colors@[(r, c)] == old(colors)@[(r, c)])),
            decreases cols - col,
        {
            let ghost pre = colors@;
            let red = s.missing.get(row, col).unwrap_or(false);
            let green = s.sticking.get(row, col).unwrap_or(false);
            let blue = s.bouncing.get(row, col).unwrap_or(false);
            if red || green || blue {
                let rgb = Rgb::new(
                    if red {
                        255
                    } else {
                        0
                    },
                    if green {
                        255
                    } else {
                        0
                    },
                    if blue {
                        255
                    } else {
                        0
                    },
                );
                colors.insert(row, col, rgb);
            } else {
                colors.remove(row, col);
            }
            proof {
                assert forall|r: usize, c: usize| !(r < rows && c < cols) implies (
                colors@.dom().contains((r, c)) == old(colors)@.dom().contains((r, c)) && (old(
                    colors,
                )@.dom().contains((r, c)) ==> colors@[(r, c)] == old(colors)@[(r, c)])) by {
                    assert((r, c) != (row, col));
                    assert(colors@.dom().contains((r, c)) == pre.dom().contains((r, c)));
                    if pre.dom().contains((r, c)) {
                        assert(colors@[(r, c)] == pre[(r, c)]);
                    }
                }
            }
            col = col + 1;
        }
        row = row + 1;
    }
}

/// How one diagnostic run ended.
#[derive(Debug)]
pub enum TestOutcome {
    /// The sample verdict failed at this 1-based run index.
    Failed(u32),
    /// Sampling itself failed to run at this 1-based run index.
    DeviceError(u32, String),
    /// Cancellation took effect after this many successful rounds.
    Cancelled(u32),
}

/// The soak-test loop: repeatedly sample, recolor and judge, until the
/// first failure or until the cooperative cancellation budget is spent.
/// The loop is intentionally endurance-oriented: a successful round starts
/// the next one immediately. A failure outcome leaves the color map
/// showing the classification of a genuinely failing sample; every round
/// before the last one reported no fault.
pub fn selma_tests<D: Daemon>(
    d: &D,
    board: BoardId,
    kind: SelmaKind,
    colors: &mut TestingColors,
    budget: u32,
) -> (r: TestOutcome)
    requires
        old(colors).wf(),
    ensures
        final(colors).wf(),
        r matches TestOutcome::Failed(n) ==> 1 <= n <= budget && exists|s: Selma|
            s.wf() && !s.all_clear() && #[trigger] classified(s, final(colors)@),
        r matches TestOutcome::DeviceError(n, _) ==> 1 <= n <= budget && !(d.reliable()
            && valid_board(d.boards_model(), board)) && (n == 1 ==> final(colors)@ == old(
            colors,
        )@) && (n > 1 ==> exists|s: Selma|
            s.wf() && s.all_clear() && #[trigger] classified(s, final(colors)@)),
        r matches TestOutcome::Cancelled(n) ==> n == budget && (n == 0 ==> final(colors)@ == old(
            colors,
        )@) && (n > 0 ==> exists|s: Selma|
            s.wf() && s.all_clear() && #[trigger] classified(s, final(colors)@)),
        d.reliable() && valid_board(d.boards_model(), board) ==> (r matches TestOutcome::Cancelled(
            n,
        ) && n == budget),
{
    let mut run: u32 = 0;
    while run < budget
        invariant
            colors.wf(),
            run <= budget,
            run == 0 ==> colors@ == old(colors)@,
            run > 0 ==> exists|s: Selma|
                s.wf() && s.all_clear() && #[trigger] classified(s, colors@),
        decreases budget - run,
    {
        run = run + 1;
        match d.selma(board, kind) {
            Ok(sample) => {
                classify_sample(&sample, colors);
                let clean = sample.success();
                proof {
                    assert(classified(sample, colors@));
                }
                if !clean {
                    return TestOutcome::Failed(run);
                }
            },
            Err(e) => {
                return TestOutcome::DeviceError(run, e);
            },
        }
    }
    TestOutcome::Cancelled(budget)
}

/// The report of one keymap transaction.
pub struct TransactionReport {
    /// How the diagnostic loop ended; `None` when the export failed and
    /// the run never started.
    pub outcome: Option<TestOutcome>,
    pub export_error: Option<String>,
    pub restore_error: Option<String>,
}

impl TransactionReport {
    /// The save and restore steps both completed.
    pub open spec fn restored(&self) -> bool {
        self.export_error is None && self.restore_error is None
    }
}

/// One full diagnostic transaction on a board: export the live keymap,
/// force a known-empty keymap (best effort), run the soak-test loop under
/// a cooperative cancellation budget, then unconditionally restore the
/// export. Whenever the export and restore steps succeed, the device is
/// left exactly as it was found — however the run in between ended.
pub fn run_transaction<D: Daemon>(
    d: &mut D,
    board: BoardId,
    layout: &Layout,
    kind: SelmaKind,
    colors: &mut TestingColors,
    budget: u32,
) -> (r: TransactionReport)
    requires
        layout.wf(),
        old(colors).wf(),
    ensures
        final(colors).wf(),
        final(d).reliable() == old(d).reliable(),
        same_boards_except(old(d).boards_model(), final(d).boards_model(), board.0 as int),
        r.restored() && valid_board(old(d).boards_model(), board) ==> same_keymap(
            old(d).boards_model()[board.0 as int],
            final(d).boards_model()[board.0 as int],
        ),
        r.restored() && !valid_board(old(d).boards_model(), board) ==> final(d).boards_model()
            == old(d).boards_model(),
        r.export_error is Some ==> final(d).boards_model() == old(d).boards_model() && r.outcome
            is None,
        old(d).reliable() && valid_board(old(d).boards_model(), board) ==> r.export_error is None
            && r.restore_error is None && (r.outcome matches Some(TestOutcome::Cancelled(n))
            && n == budget),
{
    let ghost orig = old(d).boards_model();
    let ghost b = board.0 as int;

    // Preparing: read the live keymap in full.
    let km = match export_keymap(&*d, board, layout) {
        Ok(km) => km,
        Err(e) => {
            return TransactionReport { outcome: None, export_error: Some(e), restore_error: None };
        },
    };

    // Preparing: force a known-empty keymap so stale key presses cannot
    // interfere; individual write failures are tolerated here, since the
    // restore step below rewrites every position regardless.
    let empty = KeyMap::cleared(layout);
    let _ = import_keymap(d, board, layout, &empty);

    // Running: the soak-test loop.
    let outcome = selma_tests(&*d, board, kind, colors, budget);

    // Restoring: the one unskippable step.
    let restore_error = match import_keymap(d, board, layout, &km) {
        Ok(_) => None,
        Err(e) => Some(e),
    };

    proof {
        if restore_error is None {
            if valid_board(orig, board) {
                assert forall|q: (u8, u8, u8)| #[trigger] final(d).boards_model()[b].keymap[q]
                    == orig[b].keymap[q] by {
                    if pos_in_layout(layout, q) {
                        let i = choose|i: int|
                            0 <= i < layout.keys@.len() && (#[trigger] layout.keys@[i]).0 == q.1
                                && layout.keys@[i].1 == q.2;
                        let l: int = q.0 as int;
                        assert(layout_pos(layout, i, l) == q);
                        assert(final(d).boards_model()[b].keymap[layout_pos(layout, i, l)]
                            == km.codes@[i]@[l]);
                    }
                }
            } else {
                assert(final(d).boards_model() =~= orig);
            }
        }
    }

    TransactionReport { outcome: Some(outcome), export_error: None, restore_error }
}

} // verus!
