use mavkit::mission::MissionAction;
use mavkit::mission::MissionDownload;
use mavkit::mission::MissionIssue;
use mavkit::mission::MissionItem;
use mavkit::mission::MissionOp;
use mavkit::mission::MissionOpKind;
use mavkit::mission::MissionPlan;
use mavkit::mission::MissionType;
use mavkit::mission::MissionUpload;
use mavkit::mission::TransferError;
use mavkit::mission::TransferOutcome;
use mavkit::mission::TransferPhase;
use mavkit::mission::validate_plan;
use mavkit::mission::verify_roundtrip;

fn item(seq: u16) -> MissionItem {
    MissionItem {
        seq,
        frame: 6,
        command: 16,
        current: 0,
        autocontinue: 1,
        param1: 0,
        param2: 0,
        param3: 0,
        param4: 0,
        x: 473_977_420 + seq as i32,
        y: 85_455_940,
        z: 50.0_f32.to_bits(),
    }
}

fn plan(n: u16) -> MissionPlan {
    MissionPlan {
        mission_type: MissionType::Mission,
        items: (0..n).map(item).collect(),
    }
}

#[test]
fn validate_accepts_contiguous_plans() {
    assert!(validate_plan(&plan(0)).is_empty());
    assert!(validate_plan(&plan(3)).is_empty());
}

#[test]
fn validate_reports_each_sequence_mismatch() {
    let mut p = plan(3);
    p.items[1].seq = 7;
    let issues = validate_plan(&p);
    assert_eq!(issues.len(), 1);
    assert_eq!(issues[0], MissionIssue::SequenceMismatch { index: 1, found: 7 });
}

#[test]
fn roundtrip_compare_is_field_exact() {
    // Identical plans verify; any single differing field of any item
    // makes the comparison false.
    let a = plan(2);
    let mut b = plan(2);
    assert!(verify_roundtrip(&a, &b));
    b.items[1].param3 = 1;
    assert!(!verify_roundtrip(&a, &b));

    let mut c = plan(2);
    c.mission_type = MissionType::Fence;
    assert!(!verify_roundtrip(&a, &c));
    assert!(!verify_roundtrip(&a, &plan(3)));
}

#[test]
fn upload_serves_requests_and_finishes_on_ack() {
    let p = plan(2);
    let (mut up, first) = MissionUpload::start(p).expect("valid plan");
    assert_eq!(
        first,
        MissionAction::SendCount { mission_type: MissionType::Mission, count: 2 }
    );
    assert_eq!(up.progress().phase, TransferPhase::RequestingCount);

    // The remote drives the item order.
    assert_eq!(up.on_request(0), MissionAction::SendItem { item: item(0) });
    assert_eq!(up.progress().current, 1);
    assert_eq!(up.on_request(1), MissionAction::SendItem { item: item(1) });
    assert_eq!(up.progress().current, 2);
    assert_eq!(up.progress().total, 2);

    up.on_ack(0);
    assert_eq!(up.outcome_now(), Some(TransferOutcome::Success));
}

#[test]
fn upload_rejects_invalid_plan() {
    let mut p = plan(2);
    p.items[0].seq = 1;
    assert!(matches!(MissionUpload::start(p), Err(TransferError::InvalidPlan)));
}

#[test]
fn upload_fails_on_out_of_range_request() {
    let (mut up, _) = MissionUpload::start(plan(2)).unwrap();
    up.on_request(5);
    assert_eq!(
        up.outcome_now(),
        Some(TransferOutcome::Failed(TransferError::RequestOutOfRange { seq: 5 }))
    );
}

#[test]
fn upload_fails_on_nack_without_retry() {
    let (mut up, _) = MissionUpload::start(plan(1)).unwrap();
    up.on_ack(13);
    assert_eq!(
        up.outcome_now(),
        Some(TransferOutcome::Failed(TransferError::Nack { code: 13 }))
    );
}

#[test]
fn upload_resends_on_timeout_then_fails() {
    let (mut up, first) = MissionUpload::start(plan(1)).unwrap();
    for _ in 0..5 {
        // Each timeout resends the last sent message.
        assert_eq!(up.on_timeout(), first);
    }
    assert_eq!(up.on_timeout(), MissionAction::Wait);
    assert_eq!(up.outcome_now(), Some(TransferOutcome::Failed(TransferError::Timeout)));
}

#[test]
fn empty_upload_completes_on_direct_ack() {
    let (mut up, first) = MissionUpload::start(plan(0)).unwrap();
    assert_eq!(
        first,
        MissionAction::SendCount { mission_type: MissionType::Mission, count: 0 }
    );
    up.on_ack(0);
    assert_eq!(up.outcome_now(), Some(TransferOutcome::Success));
}

#[test]
fn download_collects_items_in_ascending_order() {
    let (mut dl, first) = MissionDownload::start(MissionType::Mission);
    assert_eq!(first, MissionAction::SendRequestList { mission_type: MissionType::Mission });

    assert_eq!(
        dl.on_count(2),
        MissionAction::SendRequest { mission_type: MissionType::Mission, seq: 0 }
    );
    assert_eq!(
        dl.on_item(item(0)),
        MissionAction::SendRequest { mission_type: MissionType::Mission, seq: 1 }
    );
    assert_eq!(dl.progress().current, 1);
    assert_eq!(
        dl.on_item(item(1)),
        MissionAction::SendAck { mission_type: MissionType::Mission, code: 0 }
    );
    assert_eq!(dl.outcome_now(), Some(TransferOutcome::Success));

    let got = dl.into_plan();
    assert!(verify_roundtrip(&plan(2), &got));
}

#[test]
fn download_fails_on_out_of_order_item() {
    let (mut dl, _) = MissionDownload::start(MissionType::Fence);
    dl.on_count(2);
    dl.on_item(item(1));
    assert_eq!(
        dl.outcome_now(),
        Some(TransferOutcome::Failed(TransferError::UnexpectedItem { expected: 0, found: 1 }))
    );
}

#[test]
fn download_of_empty_store_succeeds_immediately() {
    let (mut dl, _) = MissionDownload::start(MissionType::Rally);
    assert_eq!(
        dl.on_count(0),
        MissionAction::SendAck { mission_type: MissionType::Rally, code: 0 }
    );
    assert_eq!(dl.outcome_now(), Some(TransferOutcome::Success));
    assert_eq!(dl.into_plan().items.len(), 0);
}

#[test]
fn cancel_resolves_inflight_download_at_next_step() {
    // Cancelling during an in-flight download resolves it with a
    // cancelled outcome at the next suspension point (here: the next
    // timeout), instead of continuing to retry.
    let (mut dl, _) = MissionDownload::start(MissionType::Mission);
    dl.on_count(3);
    dl.on_item(item(0));
    dl.cancel_transfer();
    assert_eq!(dl.outcome_now(), None);
    assert_eq!(dl.on_timeout(), MissionAction::Wait);
    assert_eq!(dl.outcome_now(), Some(TransferOutcome::Cancelled));
}

#[test]
fn cancel_resolves_inflight_upload_at_next_event() {
    let (mut up, _) = MissionUpload::start(plan(3)).unwrap();
    up.on_request(0);
    up.cancel_transfer();
    up.on_request(1);
    assert_eq!(up.outcome_now(), Some(TransferOutcome::Cancelled));
}

#[test]
fn clear_completes_on_ack() {
    let (mut op, first) = MissionOp::start(MissionOpKind::Clear {
        mission_type: MissionType::Mission,
    });
    assert_eq!(first, MissionAction::SendClearAll { mission_type: MissionType::Mission });
    op.on_ack(0);
    assert_eq!(op.outcome_now(), Some(TransferOutcome::Success));
}

#[test]
fn set_current_completes_on_current_report() {
    let (mut op, first) = MissionOp::start(MissionOpKind::SetCurrent { seq: 4 });
    assert_eq!(first, MissionAction::SendSetCurrent { seq: 4 });
    // A report of a different index is not the confirmation.
    op.on_current(3);
    assert_eq!(op.outcome_now(), None);
    op.on_current(4);
    assert_eq!(op.outcome_now(), Some(TransferOutcome::Success));
}

#[test]
fn mission_op_times_out_after_bounded_resends() {
    let (mut op, first) = MissionOp::start(MissionOpKind::Clear {
        mission_type: MissionType::Fence,
    });
    for _ in 0..5 {
        assert_eq!(op.on_timeout(), first);
    }
    op.on_timeout();
    assert_eq!(op.outcome_now(), Some(TransferOutcome::Failed(TransferError::Timeout)));
}
