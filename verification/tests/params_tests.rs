use mavkit::params::DownloadEnd;
use mavkit::params::Param;
use mavkit::params::ParamAction;
use mavkit::params::ParamBatch;
use mavkit::params::ParamDownload;
use mavkit::params::ParamStore;
use mavkit::params::ParamWrite;
use mavkit::params::ParamWriteError;
use mavkit::params::values_close_exec;

fn param(name: &str, value: f32) -> Param {
    Param { name: name.to_string(), value_bits: value.to_bits(), param_type: 9 }
}

#[test]
fn store_maps_names_to_latest_values() {
    let mut s = ParamStore::new();
    s.upsert(param("RTL_ALT", 30.0));
    s.upsert(param("WPNAV_SPEED", 500.0));
    assert_eq!(s.len(), 2);

    let got = s.get(&"RTL_ALT".to_string()).expect("known name");
    assert_eq!(got.value_bits, 30.0_f32.to_bits());

    // Replacing keeps one entry per name.
    s.upsert(param("RTL_ALT", 45.0));
    assert_eq!(s.len(), 2);
    let got = s.get(&"RTL_ALT".to_string()).expect("known name");
    assert_eq!(got.value_bits, 45.0_f32.to_bits());

    // Absent names are unknown, distinct from present-with-zero.
    assert!(s.get(&"NOPE".to_string()).is_none());
}

#[test]
fn download_then_write_updates_only_that_entry() {
    // A full download, then a confirmed write of one present name, then a
    // re-read: the store shows the new value and no other entry changed.
    let (mut dl, first) = ParamDownload::start();
    assert!(matches!(first, ParamAction::SendRequestList));
    dl.on_param(param("A", 1.5), 2);
    dl.on_param(param("B", 2.5), 2);
    assert_eq!(dl.outcome_now(), Some(DownloadEnd::Complete));
    let mut store = dl.into_store();

    let (mut wr, _) = ParamWrite::start("A".to_string(), 9.0_f32.to_bits());
    wr.on_param_value(&"A".to_string(), 9.0_f32.to_bits(), 9);
    let confirm = wr.outcome_now().unwrap().expect("confirmed");
    store.upsert(Param {
        name: "A".to_string(),
        value_bits: confirm.value_bits,
        param_type: confirm.param_type,
    });

    assert_eq!(store.len(), 2);
    assert_eq!(
        store.get(&"A".to_string()).unwrap().value_bits,
        9.0_f32.to_bits()
    );
    assert_eq!(
        store.get(&"B".to_string()).unwrap().value_bits,
        2.5_f32.to_bits()
    );
}

#[test]
fn quiet_download_is_reported_partial() {
    let (mut dl, _) = ParamDownload::start();
    dl.on_param(param("A", 1.0), 3);
    assert_eq!(dl.outcome_now(), None);
    dl.on_quiet_timeout();
    // A success, but observable as partial: progress current != total.
    assert_eq!(dl.outcome_now(), Some(DownloadEnd::Partial));
    let p = dl.progress();
    assert_eq!(p.current, 1);
    assert_eq!(p.total, 3);
    assert_ne!(p.current, p.total);
}

#[test]
fn duplicate_param_broadcasts_coalesce() {
    let (mut dl, _) = ParamDownload::start();
    dl.on_param(param("A", 1.0), 2);
    dl.on_param(param("A", 1.0), 2);
    assert_eq!(dl.progress().current, 1);
    dl.on_param(param("B", 2.0), 2);
    assert_eq!(dl.outcome_now(), Some(DownloadEnd::Complete));
}

#[test]
fn write_confirms_on_matching_echo() {
    let (mut wr, first) = ParamWrite::start("SPEED".to_string(), 5.0_f32.to_bits());
    match first {
        ParamAction::SendParamSet { name, value_bits } => {
            assert_eq!(name, "SPEED");
            assert_eq!(value_bits, 5.0_f32.to_bits());
        },
        _ => panic!("expected a set request"),
    }
    // Unrelated traffic is ignored.
    wr.on_param_value(&"OTHER".to_string(), 1.0_f32.to_bits(), 9);
    assert_eq!(wr.outcome_now(), None);
    // The matching echo confirms.
    wr.on_param_value(&"SPEED".to_string(), 5.0_f32.to_bits(), 9);
    let confirm = wr.outcome_now().unwrap().expect("confirmed");
    assert_eq!(confirm.value_bits, 5.0_f32.to_bits());
}

#[test]
fn write_fails_on_echo_beyond_tolerance() {
    let (mut wr, _) = ParamWrite::start("SPEED".to_string(), 5.0_f32.to_bits());
    wr.on_param_value(&"SPEED".to_string(), 6.0_f32.to_bits(), 9);
    assert_eq!(
        wr.outcome_now(),
        Some(Err(ParamWriteError::ValueMismatch { confirmed_bits: 6.0_f32.to_bits() }))
    );
}

#[test]
fn write_times_out_after_bounded_resends() {
    let (mut wr, _) = ParamWrite::start("SPEED".to_string(), 5.0_f32.to_bits());
    for _ in 0..5 {
        assert!(matches!(wr.on_timeout(), ParamAction::SendParamSet { .. }));
    }
    assert!(matches!(wr.on_timeout(), ParamAction::Wait));
    assert_eq!(wr.outcome_now(), Some(Err(ParamWriteError::Timeout)));
}

#[test]
fn echo_tolerance_is_a_few_representable_steps() {
    let one = 1.0_f32.to_bits();
    // Bit-identical echoes always confirm.
    assert!(values_close_exec(one, one));
    // A rounding step away still confirms.
    assert!(values_close_exec(one, one + 1));
    assert!(values_close_exec(one + 4, one));
    // Beyond the tolerance fails.
    assert!(!values_close_exec(one, one + 5));
    assert!(!values_close_exec(1.0_f32.to_bits(), 1.5_f32.to_bits()));
    // The key ordering also covers signed values.
    assert!(values_close_exec((-1.0_f32).to_bits(), (-1.0_f32).to_bits()));
    assert!(!values_close_exec((-1.0_f32).to_bits(), 1.0_f32.to_bits()));
}

#[test]
fn batch_reports_independent_results_in_request_order() {
    // Writing [("A", 1.0), ("B", 2.0)] where the remote rejects "B" (it
    // echoes a different value): the result for "A" is success with the
    // confirmed value, the result for "B" is a failure, and the call as a
    // whole still yields both results.
    let requests = vec![
        ("A".to_string(), 1.0_f32.to_bits()),
        ("B".to_string(), 2.0_f32.to_bits()),
    ];
    let (mut batch, first) = ParamBatch::start(requests);
    match first {
        ParamAction::SendParamSet { name, value_bits } => {
            assert_eq!(name, "A");
            assert_eq!(value_bits, 1.0_f32.to_bits());
        },
        _ => panic!("expected the first set request"),
    }

    // "A" confirms exactly.
    let next = batch.on_param_value(&"A".to_string(), 1.0_f32.to_bits(), 9);
    match next {
        ParamAction::SendParamSet { name, .. } => assert_eq!(name, "B"),
        _ => panic!("expected the second set request"),
    }
    // The remote rejects "B" by echoing its old value.
    batch.on_param_value(&"B".to_string(), 7.0_f32.to_bits(), 9);
    assert!(batch.is_done());

    let results = batch.into_results();
    assert_eq!(results.len(), 2);
    assert_eq!(results[0].name, "A");
    assert_eq!(results[0].requested_bits, 1.0_f32.to_bits());
    let confirm = results[0].outcome.as_ref().expect("first item succeeded");
    assert_eq!(confirm.value_bits, 1.0_f32.to_bits());
    assert_eq!(results[1].name, "B");
    assert!(results[1].outcome.is_err());
}

#[test]
fn batch_timeout_fails_one_item_and_moves_on() {
    let requests = vec![
        ("A".to_string(), 1.0_f32.to_bits()),
        ("B".to_string(), 2.0_f32.to_bits()),
    ];
    let (mut batch, _) = ParamBatch::start(requests);
    for _ in 0..5 {
        assert!(matches!(batch.on_param_value(&"X".to_string(), 0, 9), ParamAction::SendParamSet { .. }));
        batch.on_timeout();
    }
    // The sixth timeout gives item "A" up and moves to "B".
    match batch.on_timeout() {
        ParamAction::SendParamSet { name, .. } => assert_eq!(name, "B"),
        _ => panic!("expected to move to the next item"),
    }
    batch.on_param_value(&"B".to_string(), 2.0_f32.to_bits(), 9);
    let results = batch.into_results();
    assert_eq!(results[0].outcome, Err(ParamWriteError::Timeout));
    assert!(results[1].outcome.is_ok());
}

#[test]
fn empty_batch_is_immediately_done() {
    let (batch, first) = ParamBatch::start(Vec::new());
    assert!(matches!(first, ParamAction::Wait));
    assert!(batch.is_done());
    assert!(batch.into_results().is_empty());
}
