use keyboard_core::color::Hs;
use keyboard_core::daemon::{BoardId, Daemon};
use keyboard_core::dummy::DaemonDummy;
use keyboard_core::selma::SelmaKind;

fn two_boards() -> DaemonDummy {
    DaemonDummy::new(vec!["first".to_string(), "second".to_string()])
}

#[test]
fn boards_are_enumerated() {
    let d = two_boards();
    let ids = d.boards().unwrap();
    assert_eq!(ids.len(), 2);
    assert_eq!(ids[0], BoardId(0));
    assert_eq!(ids[1], BoardId(1));
}

#[test]
fn model_names_each_board() {
    let d = two_boards();
    assert_eq!(d.model(BoardId(0)).unwrap(), "first".to_string());
    assert_eq!(d.model(BoardId(1)).unwrap(), "second".to_string());
    assert!(d.model(BoardId(2)).is_err());
}

#[test]
fn dummy_is_fake() {
    assert!(two_boards().is_fake());
}

#[test]
fn keymap_reads_zero_until_written() {
    let mut d = two_boards();
    let b = BoardId(0);
    assert_eq!(d.keymap_get(b, 0, 1, 2).unwrap(), 0);
    d.keymap_set(b, 0, 1, 2, 57).unwrap();
    assert_eq!(d.keymap_get(b, 0, 1, 2).unwrap(), 57);
    // A neighbouring position is untouched.
    assert_eq!(d.keymap_get(b, 0, 1, 3).unwrap(), 0);
    // The other board is untouched.
    assert_eq!(d.keymap_get(BoardId(1), 0, 1, 2).unwrap(), 0);
}

#[test]
fn keymap_set_overwrites() {
    let mut d = two_boards();
    let b = BoardId(0);
    d.keymap_set(b, 1, 4, 5, 10).unwrap();
    d.keymap_set(b, 1, 4, 5, 20).unwrap();
    assert_eq!(d.keymap_get(b, 1, 4, 5).unwrap(), 20);
}

#[test]
fn keymap_rejects_unknown_board() {
    let mut d = two_boards();
    assert!(d.keymap_get(BoardId(9), 0, 0, 0).is_err());
    assert!(d.keymap_set(BoardId(9), 0, 0, 0, 1).is_err());
}

#[test]
fn color_follows_whole_keyboard_index() {
    let mut d = two_boards();
    let b = BoardId(0);
    assert_eq!(d.color(b, 0xFF).unwrap(), Hs { h: 0, s: 0 });
    d.set_color(b, 0xFF, Hs { h: 120_000, s: 500 }).unwrap();
    assert_eq!(d.color(b, 0xFF).unwrap(), Hs { h: 120_000, s: 500 });
}

#[test]
fn per_key_color_index_is_rejected() {
    let mut d = two_boards();
    let b = BoardId(0);
    assert!(d.color(b, 0).is_err());
    assert!(d.set_color(b, 3, Hs { h: 1, s: 1 }).is_err());
    assert!(d.brightness(b, 0).is_err());
    assert!(d.set_brightness(b, 7, 50).is_err());
}

#[test]
fn max_brightness_ignores_board_id() {
    // The maximum is a constant of the simulated hardware: the id is not
    // validated by this read.
    let d = two_boards();
    assert_eq!(d.max_brightness(BoardId(0)).unwrap(), 100);
    assert_eq!(d.max_brightness(BoardId(9)).unwrap(), 100);
}

#[test]
fn brightness_round_trip() {
    let mut d = two_boards();
    let b = BoardId(0);
    assert_eq!(d.max_brightness(b).unwrap(), 100);
    assert_eq!(d.brightness(b, 0xFF).unwrap(), 0);
    d.set_brightness(b, 0xFF, 73).unwrap();
    assert_eq!(d.brightness(b, 0xFF).unwrap(), 73);
}

#[test]
fn mode_round_trip() {
    let mut d = two_boards();
    let b = BoardId(0);
    assert_eq!(d.mode(b).unwrap(), (0, 0));
    d.set_mode(b, 3, 128).unwrap();
    assert_eq!(d.mode(b).unwrap(), (3, 128));
}

#[test]
fn simulated_samples_are_clean() {
    let d = two_boards();
    let b = BoardId(0);
    let m = d.matrix_get(b).unwrap();
    assert_eq!(m.rows(), 0);
    assert_eq!(m.cols(), 0);
    // The raw snapshot has no per-board electrical state behind it, so
    // the id is not validated either.
    assert!(d.matrix_get(BoardId(9)).is_ok());
    let s = d.selma(b, SelmaKind::Normal).unwrap();
    assert!(s.success());
    assert!(d.selma(BoardId(9), SelmaKind::Bouncing).is_err());
}

#[test]
fn benchmark_is_not_supported() {
    let d = two_boards();
    assert!(d.benchmark(BoardId(0)).is_err());
    assert!(d.exit().is_ok());
}
