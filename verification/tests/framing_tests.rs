use mavkit::bridge::ByteBridge;
use mavkit::bridge::ReadOutcome;
use mavkit::framing::FrameHeader;
use mavkit::framing::FramingError;
use mavkit::framing::ProtocolVersion;
use mavkit::framing::RecvOutcome;
use mavkit::framing::StreamConnection;

fn heartbeat() -> mavlink::common::MavMessage {
    mavlink::common::MavMessage::HEARTBEAT(mavlink::common::HEARTBEAT_DATA {
        custom_mode: 5,
        mavtype: mavlink::common::MavType::MAV_TYPE_QUADROTOR,
        autopilot: mavlink::common::MavAutopilot::MAV_AUTOPILOT_ARDUPILOTMEGA,
        base_mode: mavlink::common::MavModeFlag::MAV_MODE_FLAG_CUSTOM_MODE_ENABLED,
        system_status: mavlink::common::MavState::MAV_STATE_STANDBY,
        mavlink_version: 3,
    })
}

fn conn() -> StreamConnection {
    StreamConnection::new(ByteBridge::new(16, 16))
}

fn drain_unit(c: &mut StreamConnection) -> Vec<u8> {
    match c.bridge.drain_outbound() {
        ReadOutcome::Data(d) => d,
        other => panic!("expected an outbound frame, got {:?}", other),
    }
}

fn header(seq: u8) -> FrameHeader {
    FrameHeader { system_id: 255, component_id: 1, sequence: seq }
}

#[test]
fn stream_connection_is_send_sync() {
    fn assert_send_sync<T: Send + Sync>() {}
    assert_send_sync::<StreamConnection>();
}

#[test]
fn send_assigns_sequence_numbers_mod_256() {
    // Sequence numbers assigned by send increment by 1 modulo 256
    // regardless of the header sequence the caller supplied.
    let mut c = conn();
    for i in 0..=256u32 {
        // The caller's header always claims sequence 99; the connection
        // ignores it.
        let n = c.send(&header(99), &heartbeat()).expect("send failed");
        let frame = drain_unit(&mut c);
        assert_eq!(n, frame.len());
        assert_eq!(frame[0], 0xFD);
        // Offset 4 carries the assigned sequence in a v2 frame.
        assert_eq!(frame[4] as u32, i % 256);
    }
}

#[test]
fn sent_frames_parse_back_with_mavlink() {
    let mut c = conn();
    let msg = heartbeat();
    c.send(&header(0), &msg).expect("send failed");
    let frame = drain_unit(&mut c);

    let mut reader = mavlink::peek_reader::PeekReader::<&[u8]>::new(&frame);
    let (h, parsed) = mavlink::read_v2_msg::<mavlink::common::MavMessage, _>(&mut reader)
        .expect("frame did not parse");
    assert_eq!(h.system_id, 255);
    assert_eq!(h.component_id, 1);
    assert_eq!(h.sequence, 0);
    assert_eq!(parsed, msg);
}

#[test]
fn recv_decodes_a_frame_after_garbage() {
    let mut tx = conn();
    let msg = heartbeat();
    tx.send(&header(0), &msg).unwrap();
    let frame = drain_unit(&mut tx);

    let mut rx = conn();
    // Non-frame bytes before the frame are skipped by synchronisation.
    rx.bridge.push_inbound(vec![0x00, 0x42, 0x13]);
    rx.bridge.push_inbound(frame);
    match rx.recv() {
        RecvOutcome::Frame { header: h, message } => {
            assert_eq!(h.sequence, 0);
            assert_eq!(h.system_id, 255);
            assert_eq!(h.component_id, 1);
            assert_eq!(message, msg);
        },
        other => panic!("expected a frame, got recv outcome {:?}", discriminant(&other)),
    }
    // Nothing further buffered.
    assert!(matches!(rx.recv(), RecvOutcome::Pending));
}

fn discriminant(r: &RecvOutcome) -> &'static str {
    match r {
        RecvOutcome::Frame { .. } => "frame",
        RecvOutcome::Pending => "pending",
        RecvOutcome::Eof => "eof",
        RecvOutcome::Failed(_) => "failed",
    }
}

#[test]
fn recv_reports_integrity_mismatch() {
    let mut tx = conn();
    tx.send(&header(0), &heartbeat()).unwrap();
    let mut frame = drain_unit(&mut tx);
    // Corrupt one payload byte: the checksum no longer matches.
    let n = frame.len();
    frame[n - 3] ^= 0xFF;

    let mut rx = conn();
    rx.bridge.push_inbound(frame);
    assert!(matches!(rx.recv(), RecvOutcome::Failed(FramingError::Integrity)));
}

#[test]
fn recv_waits_for_a_complete_frame() {
    let mut tx = conn();
    tx.send(&header(0), &heartbeat()).unwrap();
    let frame = drain_unit(&mut tx);

    let mut rx = conn();
    // Only half the frame has arrived.
    rx.bridge.push_inbound(frame[..frame.len() / 2].to_vec());
    assert!(matches!(rx.recv(), RecvOutcome::Pending));
    // The rest completes it.
    rx.bridge.push_inbound(frame[frame.len() / 2..].to_vec());
    assert!(matches!(rx.recv(), RecvOutcome::Frame { .. }));
}

#[test]
fn recv_reports_eof_on_closed_link() {
    let mut rx = conn();
    rx.bridge.close_inbound();
    assert!(matches!(rx.recv(), RecvOutcome::Eof));
}

#[test]
fn version_one_frames_roundtrip() {
    let mut tx = conn();
    tx.set_protocol_version(ProtocolVersion::V1);
    tx.send(&header(0), &heartbeat()).unwrap();
    let frame = drain_unit(&mut tx);
    assert_eq!(frame[0], 0xFE);

    // A receiver pinned to the first version accepts it.
    let mut rx = conn();
    rx.set_protocol_version(ProtocolVersion::V1);
    rx.set_allow_recv_any_version(false);
    rx.bridge.push_inbound(frame.clone());
    assert!(matches!(rx.recv(), RecvOutcome::Frame { .. }));

    // A receiver accepting any version sniffs the marker and accepts it
    // too, though it is configured for the second version.
    let mut sniff = conn();
    assert!(sniff.allow_recv_any_version());
    assert_eq!(sniff.protocol_version(), ProtocolVersion::V2);
    sniff.bridge.push_inbound(frame.clone());
    assert!(matches!(sniff.recv(), RecvOutcome::Frame { .. }));

    // A receiver pinned to the second version treats the first-version
    // frame as non-frame bytes.
    let mut strict = conn();
    strict.set_allow_recv_any_version(false);
    strict.bridge.push_inbound(frame);
    assert!(matches!(strict.recv(), RecvOutcome::Pending));
}

#[test]
fn recv_raw_returns_undecoded_frame_bytes() {
    let mut tx = conn();
    tx.send(&header(0), &heartbeat()).unwrap();
    let frame = drain_unit(&mut tx);

    let mut rx = conn();
    rx.bridge.push_inbound(frame.clone());
    match rx.recv_raw() {
        mavkit::framing::RawRecv::Frame { header: h, bytes } => {
            assert_eq!(bytes, frame);
            assert_eq!(h.sequence, 0);
        },
        _ => panic!("expected a raw frame"),
    }
}

#[test]
fn configuration_accessors_roundtrip() {
    let mut c = conn();
    assert_eq!(c.protocol_version(), ProtocolVersion::V2);
    assert!(c.allow_recv_any_version());
    c.set_protocol_version(ProtocolVersion::V1);
    c.set_allow_recv_any_version(false);
    assert_eq!(c.protocol_version(), ProtocolVersion::V1);
    assert!(!c.allow_recv_any_version());
}

#[test]
fn send_reports_closed_link() {
    let mut c = conn();
    c.close_outbound();
    assert!(matches!(
        c.send(&header(0), &heartbeat()),
        Err(mavkit::framing::SendError::Closed)
    ));
}
