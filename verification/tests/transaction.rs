use keyboard_core::daemon::{BoardId, Daemon};
use keyboard_core::dummy::DaemonDummy;
use keyboard_core::keymap::{export_keymap, import_keymap, KeyMap, Layout};
use keyboard_core::runner::TestRunner;
use keyboard_core::selma::SelmaKind;
use keyboard_core::testing::{run_transaction, selma_tests, TestOutcome, TestingColors};

fn small_layout() -> Layout {
    Layout { keys: vec![(0, 0), (0, 1), (1, 0)], layers: 2 }
}

fn board_with_keymap() -> (DaemonDummy, BoardId) {
    let mut d = DaemonDummy::new(vec!["soak rig".to_string()]);
    let b = BoardId(0);
    d.keymap_set(b, 0, 0, 0, 4).unwrap();
    d.keymap_set(b, 0, 0, 1, 5).unwrap();
    d.keymap_set(b, 1, 0, 0, 6).unwrap();
    d.keymap_set(b, 1, 1, 0, 7).unwrap();
    (d, b)
}

#[test]
fn export_reads_every_position() {
    let (d, b) = board_with_keymap();
    let layout = small_layout();
    let km = export_keymap(&d, b, &layout).unwrap();
    assert_eq!(km.codes.len(), 3);
    assert_eq!(km.codes[0], vec![4, 6]);
    assert_eq!(km.codes[1], vec![5, 0]);
    assert_eq!(km.codes[2], vec![0, 7]);
}

#[test]
fn import_cleared_zeroes_layout() {
    let (mut d, b) = board_with_keymap();
    let layout = small_layout();
    let empty = KeyMap::cleared(&layout);
    import_keymap(&mut d, b, &layout, &empty).unwrap();
    assert_eq!(d.keymap_get(b, 0, 0, 0).unwrap(), 0);
    assert_eq!(d.keymap_get(b, 0, 0, 1).unwrap(), 0);
    assert_eq!(d.keymap_get(b, 1, 0, 0).unwrap(), 0);
    assert_eq!(d.keymap_get(b, 1, 1, 0).unwrap(), 0);
}

#[test]
fn transaction_restores_keymap() {
    let (mut d, b) = board_with_keymap();
    let layout = small_layout();
    let mut colors = TestingColors::new();
    let report = run_transaction(&mut d, b, &layout, SelmaKind::Normal, &mut colors, 2);
    assert!(report.export_error.is_none());
    assert!(report.restore_error.is_none());
    assert!(matches!(report.outcome, Some(TestOutcome::Cancelled(2))));
    assert_eq!(d.keymap_get(b, 0, 0, 0).unwrap(), 4);
    assert_eq!(d.keymap_get(b, 0, 0, 1).unwrap(), 5);
    assert_eq!(d.keymap_get(b, 1, 0, 0).unwrap(), 6);
    assert_eq!(d.keymap_get(b, 1, 1, 0).unwrap(), 7);
    assert_eq!(d.keymap_get(b, 1, 1, 1).unwrap(), 0);
}

#[test]
fn transaction_restores_after_immediate_cancellation() {
    // Cancellation before any round still runs the restore step.
    let (mut d, b) = board_with_keymap();
    let layout = small_layout();
    let mut colors = TestingColors::new();
    let report = run_transaction(&mut d, b, &layout, SelmaKind::Bouncing, &mut colors, 0);
    assert!(report.export_error.is_none());
    assert!(report.restore_error.is_none());
    assert!(matches!(report.outcome, Some(TestOutcome::Cancelled(0))));
    assert_eq!(d.keymap_get(b, 0, 0, 0).unwrap(), 4);
    assert_eq!(d.keymap_get(b, 1, 1, 0).unwrap(), 7);
}

#[test]
fn soak_loop_spends_its_budget_on_a_clean_board() {
    let (d, b) = board_with_keymap();
    let mut colors = TestingColors::new();
    let outcome = selma_tests(&d, b, SelmaKind::Normal, &mut colors, 5);
    assert!(matches!(outcome, TestOutcome::Cancelled(5)));
}

#[test]
fn soak_loop_reports_device_error_for_unknown_board() {
    let d = DaemonDummy::new(vec!["rig".to_string()]);
    let mut colors = TestingColors::new();
    let outcome = selma_tests(&d, BoardId(9), SelmaKind::Normal, &mut colors, 5);
    assert!(matches!(outcome, TestOutcome::DeviceError(1, _)));
}

#[test]
fn start_hands_out_previous_token_exactly_once() {
    let mut runner = TestRunner::new();
    let (cancel0, t0) = runner.start(0);
    assert_eq!(cancel0, None);
    let (cancel1, t1) = runner.start(0);
    assert_eq!(cancel1, Some(t0));
    assert_ne!(t0, t1);
    let (cancel2, t2) = runner.start(0);
    assert_eq!(cancel2, Some(t1));
    assert_ne!(t2, t0);
    assert_ne!(t2, t1);
}

#[test]
fn stop_clears_the_slot() {
    let mut runner = TestRunner::new();
    let (_, t) = runner.start(1);
    assert_eq!(runner.stop(1), Some(t));
    assert_eq!(runner.stop(1), None);
    let (cancel, _) = runner.start(1);
    assert_eq!(cancel, None);
}

#[test]
fn slots_are_independent() {
    let mut runner = TestRunner::new();
    let (_, t0) = runner.start(0);
    let (_, t1) = runner.start(2);
    assert_ne!(t0, t1);
    assert_eq!(runner.stop(1), None);
    assert_eq!(runner.stop(0), Some(t0));
    assert_eq!(runner.stop(2), Some(t1));
}
