use mavkit::bridge::ByteBridge;
use mavkit::bridge::PushOutcome;
use mavkit::bridge::ReadOutcome;
use mavkit::bridge::WriteOutcome;

fn read_bytes(b: &mut ByteBridge, max: usize) -> Vec<u8> {
    match b.read(max) {
        ReadOutcome::Data(d) => d,
        other => panic!("expected data, got {:?}", other),
    }
}

#[test]
fn channel_reader_yields_chunks_in_order() {
    let mut b = ByteBridge::new(8, 8);
    assert_eq!(b.push_inbound(b"hello".to_vec()), PushOutcome::Queued);
    assert_eq!(b.push_inbound(b" world".to_vec()), PushOutcome::Queued);
    b.close_inbound();

    assert_eq!(read_bytes(&mut b, 5), b"hello".to_vec());
    assert_eq!(read_bytes(&mut b, 6), b" world".to_vec());
    // End of stream once the transport closed and nothing remains.
    assert!(matches!(b.read(32), ReadOutcome::Eof));
}

#[test]
fn channel_reader_buffers_partial_reads() {
    let mut b = ByteBridge::new(8, 8);
    assert_eq!(b.push_inbound(b"abcdef".to_vec()), PushOutcome::Queued);

    // Read only 3 bytes at a time.
    assert_eq!(read_bytes(&mut b, 3), b"abc".to_vec());
    assert_eq!(read_bytes(&mut b, 3), b"def".to_vec());
}

#[test]
fn channel_writer_sends_data() {
    let mut b = ByteBridge::new(8, 8);
    assert_eq!(b.write(b"test data".to_vec()), WriteOutcome::Queued);
    assert_eq!(read_drained(&mut b), b"test data".to_vec());
}

#[test]
fn channel_pair_roundtrip() {
    let mut b = ByteBridge::new(8, 8);

    // Simulate incoming device data.
    assert_eq!(b.push_inbound(b"from device".to_vec()), PushOutcome::Queued);
    assert_eq!(read_bytes(&mut b, 32), b"from device".to_vec());

    // Simulate outgoing data.
    assert_eq!(b.write(b"to device".to_vec()), WriteOutcome::Queued);
    assert_eq!(read_drained(&mut b), b"to device".to_vec());
}

fn read_drained(b: &mut ByteBridge) -> Vec<u8> {
    match b.drain_outbound() {
        ReadOutcome::Data(d) => d,
        other => panic!("expected outbound unit, got {:?}", other),
    }
}

#[test]
fn arbitrary_read_sizes_reassemble_pushed_bytes() {
    // Push "hello" and " world"; reading in sizes 3,3,3,3 yields exactly
    // "hel", "lo ", "wor", "ld": the concatenation, in order, with no gap
    // or duplication, across chunk boundaries.
    let mut b = ByteBridge::new(8, 8);
    b.push_inbound(b"hello".to_vec());
    b.push_inbound(b" world".to_vec());

    assert_eq!(read_bytes(&mut b, 3), b"hel".to_vec());
    assert_eq!(read_bytes(&mut b, 3), b"lo ".to_vec());
    assert_eq!(read_bytes(&mut b, 3), b"wor".to_vec());
    assert_eq!(read_bytes(&mut b, 3), b"ld".to_vec());
    assert!(matches!(b.read(3), ReadOutcome::Pending));
}

#[test]
fn outbound_units_never_merge() {
    // A written unit is drained exactly as written, never merged with a
    // subsequent write.
    let mut b = ByteBridge::new(8, 8);
    assert_eq!(b.write(b"first".to_vec()), WriteOutcome::Queued);
    assert_eq!(b.write(b"second".to_vec()), WriteOutcome::Queued);

    assert_eq!(read_drained(&mut b), b"first".to_vec());
    assert_eq!(read_drained(&mut b), b"second".to_vec());
    assert!(matches!(b.drain_outbound(), ReadOutcome::Pending));
}

#[test]
fn inbound_full_drops_chunk() {
    let mut b = ByteBridge::new(1, 8);
    assert_eq!(b.push_inbound(b"keep".to_vec()), PushOutcome::Queued);
    assert_eq!(b.push_inbound(b"drop".to_vec()), PushOutcome::Dropped);
    assert_eq!(read_bytes(&mut b, 16), b"keep".to_vec());
    assert!(matches!(b.read(16), ReadOutcome::Pending));
}

#[test]
fn outbound_full_blocks_instead_of_dropping() {
    let mut b = ByteBridge::new(8, 1);
    assert_eq!(b.write(b"a".to_vec()), WriteOutcome::Queued);
    assert_eq!(b.write(b"b".to_vec()), WriteOutcome::WouldBlock);
    assert_eq!(read_drained(&mut b), b"a".to_vec());
    // After space frees the retried write goes through.
    assert_eq!(b.write(b"b".to_vec()), WriteOutcome::Queued);
    assert_eq!(read_drained(&mut b), b"b".to_vec());
}

#[test]
fn closed_sides_reject_operations() {
    let mut b = ByteBridge::new(8, 8);
    b.push_inbound(b"tail".to_vec());
    b.close_inbound();
    assert_eq!(b.push_inbound(b"late".to_vec()), PushOutcome::Closed);
    // Queued data stays readable, then end of stream.
    assert_eq!(read_bytes(&mut b, 16), b"tail".to_vec());
    assert!(matches!(b.read(16), ReadOutcome::Eof));

    b.write(b"queued".to_vec());
    b.close_outbound();
    assert_eq!(b.write(b"late".to_vec()), WriteOutcome::Closed);
    assert_eq!(read_drained(&mut b), b"queued".to_vec());
    assert!(matches!(b.drain_outbound(), ReadOutcome::Eof));
}

#[test]
fn empty_chunks_carry_no_data() {
    let mut b = ByteBridge::new(8, 8);
    assert_eq!(b.push_inbound(Vec::new()), PushOutcome::Queued);
    assert!(matches!(b.read(8), ReadOutcome::Pending));
    assert_eq!(b.write(Vec::new()), WriteOutcome::Queued);
    assert!(matches!(b.drain_outbound(), ReadOutcome::Pending));
}
