use keyboard_core::bench::{Benchmark, PortDesc, TestResults};

#[test]
fn starts_with_no_benchmarks_performed() {
    let results = TestResults::new();
    assert_eq!(
        *results.get(PortDesc::Usb2ALeft),
        Err("no benchmarks performed".to_string())
    );
    assert_eq!(
        *results.get(PortDesc::Usb3CRight),
        Err("no benchmarks performed".to_string())
    );
}

#[test]
fn better_success_replaces_smaller() {
    let mut results = TestResults::new();
    results.update(PortDesc::Usb2ALeft, Ok(9500));
    results.update(PortDesc::Usb2ALeft, Ok(12050));
    assert_eq!(*results.get(PortDesc::Usb2ALeft), Ok(12050));
}

#[test]
fn success_is_never_regressed() {
    // A round reports 120.5 MB/s for "USB 2.0: USB-A Left"; a later round
    // reports 95.0 MB/s. The stored aggregate keeps the better result.
    let port = PortDesc::Usb2ALeft;
    assert_eq!(port.description(), "USB 2.0: USB-A Left".to_string());
    let mut results = TestResults::new();
    let first = (120.5f64 * 100.0) as u64;
    let later = (95.0f64 * 100.0) as u64;
    results.update(port, Ok(first));
    results.update(port, Ok(later));
    assert_eq!(*results.get(port), Ok(12050));
}

#[test]
fn error_never_displaces_success() {
    let mut results = TestResults::new();
    results.update(PortDesc::Usb2CLeft, Ok(8000));
    results.update(PortDesc::Usb2CLeft, Err("unplugged".to_string()));
    assert_eq!(*results.get(PortDesc::Usb2CLeft), Ok(8000));
}

#[test]
fn newest_result_replaces_error() {
    let mut results = TestResults::new();
    results.update(PortDesc::Usb3ALeft, Err("first failure".to_string()));
    results.update(PortDesc::Usb3ALeft, Err("second failure".to_string()));
    assert_eq!(
        *results.get(PortDesc::Usb3ALeft),
        Err("second failure".to_string())
    );
    results.update(PortDesc::Usb3ALeft, Ok(700));
    assert_eq!(*results.get(PortDesc::Usb3ALeft), Ok(700));
}

#[test]
fn reset_clears_all_ports() {
    let mut results = TestResults::new();
    results.update(PortDesc::Usb2ARight, Ok(4000));
    results.reset();
    assert_eq!(
        *results.get(PortDesc::Usb2ARight),
        Err("no benchmarks performed".to_string())
    );
}

#[test]
fn update_round_merges_each_port() {
    let mut results = TestResults::new();
    let round = Benchmark {
        port_results: vec![
            (PortDesc::Usb2ALeft, Ok(100)),
            (PortDesc::Usb2ARight, Err("stalled".to_string())),
        ],
    };
    results.update_round(&round);
    assert_eq!(*results.get(PortDesc::Usb2ALeft), Ok(100));
    assert_eq!(
        *results.get(PortDesc::Usb2ARight),
        Err("stalled".to_string())
    );
    assert_eq!(
        *results.get(PortDesc::Usb2CLeft),
        Err("no benchmarks performed".to_string())
    );
}

#[test]
fn failed_round_leaves_table_untouched() {
    let mut results = TestResults::new();
    results.update(PortDesc::Usb2ALeft, Ok(5000));
    results.update_outcome(&Err("benchmark did not run".to_string()));
    assert_eq!(*results.get(PortDesc::Usb2ALeft), Ok(5000));
    assert_eq!(
        *results.get(PortDesc::Usb2ARight),
        Err("no benchmarks performed".to_string())
    );
}

#[test]
fn successful_round_outcome_is_merged() {
    let mut results = TestResults::new();
    let round = Benchmark {
        port_results: vec![(PortDesc::Usb3CLeft, Ok(9001))],
    };
    results.update_outcome(&Ok(round));
    assert_eq!(*results.get(PortDesc::Usb3CLeft), Ok(9001));
}

#[test]
fn port_descriptions_and_indices() {
    let all = PortDesc::all();
    assert_eq!(all.len(), 8);
    for (i, port) in all.iter().enumerate() {
        assert_eq!(port.index(), i);
    }
    assert_eq!(
        all[4].description(),
        "USB 3.2 Gen 2: USB-A Left".to_string()
    );
}
