//! The framed connection: turns the ordered byte stream of a
//! [`ByteBridge`](crate::bridge::ByteBridge) into a sequenced message
//! channel.
//!
//! Receiving synchronises to the next valid frame start (skipping non-frame
//! bytes), determines the protocol version from configuration or by sniffing
//! the frame's version marker when any version is accepted, validates the
//! frame's integrity check, and decodes the payload into a typed message.
//! Sending overwrites the caller-supplied sequence with this connection's
//! own monotonic counter, which wraps at 256.
//!
//! The frame layout and integrity check are those of the MAVLink wire
//! protocol; the checksum computation and the payload codec are supplied by
//! the `mavlink` crate through the trusted items below, while frame-boundary
//! scanning, version sniffing, integrity classification and sequence
//! numbering are verified here.

use vstd::prelude::*;
use vstd::slice::slice_subrange;
use crate::bridge::ByteBridge;
use crate::bridge::ReadOutcome;
use crate::bridge::WriteOutcome;

verus! {

/// Start-of-frame marker of the first protocol version.
pub const MAGIC_V1: u8 = 0xFE;

/// Start-of-frame marker of the second protocol version.
pub const MAGIC_V2: u8 = 0xFD;

/// What the wire checksum function returns for the covered bytes and the
/// per-message extra byte; computed by `mavlink::calculate_crc`.
pub uninterp spec fn crc_of(data: Seq<u8>, extra: u8) -> u16;

/// The per-message-id checksum seed of the dialect, as returned by
/// `mavlink::Message::extra_crc` for the common dialect.
pub uninterp spec fn extra_crc_of(msgid: u32) -> u8;

/// The decoded message type of the common MAVLink dialect; opaque here, its
/// payload codec belongs to the `mavlink` crate.
#[verifier::external_type_specification]
#[verifier::external_body]
pub struct ExMavMessage(mavlink::common::MavMessage);

/// Relies on `mavlink::calculate_crc`: the X.25 checksum over the given
/// bytes followed by the extra byte, a function of its arguments alone.
pub assume_specification[ mavlink::calculate_crc ](data: &[u8], extra_crc: u8) -> (r: u16)
    ensures
        r == crc_of(data@, extra_crc),
;

/// Relies on `mavlink::Message::extra_crc` for the common dialect: the
/// per-message-id checksum seed, a function of the id alone.
pub assume_specification[ <mavlink::common::MavMessage as mavlink::Message>::extra_crc ](
    id: u32,
) -> (r: u8)
    ensures
        r == extra_crc_of(id),
;

/// Wire protocol version of this connection.
#[derive(Clone, Copy, PartialEq, Eq, Structural, Debug)]
pub enum ProtocolVersion {
    V1,
    V2,
}

/// Frame metadata: message origin and per-connection sequence number.
#[derive(Clone, Copy, PartialEq, Eq, Structural, Debug)]
pub struct FrameHeader {
    pub system_id: u8,
    pub component_id: u8,
    pub sequence: u8,
}

/// Failures of the framing layer, surfaced immediately and never retried
/// here; retry belongs to the transfer-protocol layer.
#[derive(Clone, Copy, PartialEq, Eq, Structural, Debug)]
pub enum FramingError {
    /// The frame's integrity check did not match its contents.
    Integrity,
    /// The frame was well-delimited but its payload could not be decoded.
    Malformed,
}

/// Failures of `send`.
#[derive(Clone, Copy, PartialEq, Eq, Structural, Debug)]
pub enum SendError {
    /// The outbound queue is full; the caller must suspend and retry.
    WouldBlock,
    /// The outbound side of the link is closed.
    Closed,
    /// The message cannot be serialized in the configured protocol version.
    UnsupportedMessage,
}

/// The start-of-frame marker of a version.
pub open spec fn magic_of(v1: bool) -> u8 {
    if v1 {
        MAGIC_V1
    } else {
        MAGIC_V2
    }
}

/// Offset of the sequence byte within a frame of a version.
pub open spec fn seq_offset(v1: bool) -> int {
    if v1 {
        2
    } else {
        4
    }
}

/// Offset of the system id byte within a frame of a version.
pub open spec fn sysid_offset(v1: bool) -> int {
    if v1 {
        3
    } else {
        5
    }
}

/// Offset of the component id byte within a frame of a version.
pub open spec fn compid_offset(v1: bool) -> int {
    if v1 {
        4
    } else {
        6
    }
}

/// Relies on `mavlink::write_versioned_msg`: serializes one frame to a byte
/// buffer. The first byte is the version's start marker and a frame is at
/// least 8 bytes (marker, header, checksum); the sequence, system and
/// component ids are placed at the fixed header offsets of the wire format.
/// Serialization fails only when a message id above 255 is written in the
/// first protocol version.
#[verifier::external_body]
fn encode_frame(
    v1: bool,
    sequence: u8,
    system_id: u8,
    component_id: u8,
    message: &mavlink::common::MavMessage,
) -> (r: Result<Vec<u8>, SendError>)
    ensures
        match r {
            Ok(b) => b@.len() >= 8 && b@[0] == magic_of(v1) && b@[seq_offset(v1)] == sequence
                && b@[sysid_offset(v1)] == system_id && b@[compid_offset(v1)] == component_id,
            Err(e) => v1 && e == SendError::UnsupportedMessage,
        },
{
    let header = mavlink::MavHeader { system_id, component_id, sequence };
    let version = if v1 { mavlink::MavlinkVersion::V1 } else { mavlink::MavlinkVersion::V2 };
    let mut buf: Vec<u8> = Vec::new();
    match mavlink::write_versioned_msg(&mut buf, version, header, message) {
        Ok(_) => Ok(buf),
        Err(_) => Err(SendError::UnsupportedMessage),
    }
}

/// Relies on `mavlink::Message::parse` for the common dialect: decodes a
/// payload whose integrity check already passed; an undecodable payload
/// (unknown id, invalid enum or flag value) is reported as `Malformed`.
#[verifier::external_body]
fn parse_payload(v1: bool, msgid: u32, payload: &[u8]) -> (r: Result<
    mavlink::common::MavMessage,
    FramingError,
>)
    ensures
        r matches Err(e) ==> e == FramingError::Malformed,
{
    let version = if v1 { mavlink::MavlinkVersion::V1 } else { mavlink::MavlinkVersion::V2 };
    match <mavlink::common::MavMessage as mavlink::Message>::parse(version, msgid, payload) {
        Ok(m) => Ok(m),
        Err(_) => Err(FramingError::Malformed),
    }
}

/// Whether `b` starts a frame this configuration accepts: the version
/// marker of the configured version, or either marker when incoming frames
/// of any version are accepted (auto-detection).
pub open spec fn accepts_byte(v: ProtocolVersion, any: bool, b: u8) -> bool {
    ||| (b == MAGIC_V2 && (any || v is V2))
    ||| (b == MAGIC_V1 && (any || v is V1))
}

/// Total length of a first-version frame with the given payload length.
pub open spec fn v1_total(plen: u8) -> int {
    8 + plen as int
}

/// Total length of a second-version frame: 12 framing bytes, the payload,
/// and a 13-byte signature when the signed incompatibility flag is set.
pub open spec fn v2_total(plen: u8, flags: u8) -> int {
    12 + plen as int + (if flags & 1u8 == 1u8 { 13int } else { 0int })
}

/// The integrity check of a first-version frame layout over `b`: the
/// trailing checksum equals the wire checksum of everything between marker
/// and checksum, seeded by the message id.
pub open spec fn v1_crc_ok(b: Seq<u8>) -> bool {
    let plen = b[1] as int;
    (b[6 + plen] as int) + 256 * (b[7 + plen] as int) == crc_of(
        b.subrange(1, 6 + plen),
        extra_crc_of(b[5] as u32),
    ) as int
}

/// The integrity check of a second-version frame layout over `b`.
pub open spec fn v2_crc_ok(b: Seq<u8>) -> bool {
    let plen = b[1] as int;
    let msgid = ((b[7] as int) + 256 * (b[8] as int) + 65536 * (b[9] as int)) as u32;
    (b[10 + plen] as int) + 256 * (b[11 + plen] as int) == crc_of(
        b.subrange(1, 10 + plen),
        extra_crc_of(msgid),
    ) as int
}

/// A complete, integrity-checked first-version frame: marker, length byte
/// matching the total, and a matching checksum.
pub open spec fn v1_frame_ok(b: Seq<u8>) -> bool {
    &&& b.len() >= 8
    &&& b[0] == MAGIC_V1
    &&& b.len() == v1_total(b[1])
    &&& v1_crc_ok(b)
}

/// A complete, integrity-checked second-version frame.
pub open spec fn v2_frame_ok(b: Seq<u8>) -> bool {
    &&& b.len() >= 12
    &&& b[0] == MAGIC_V2
    &&& b.len() == v2_total(b[1], b[2])
    &&& v2_crc_ok(b)
}

/// A complete frame of either version that passes its integrity check.
pub open spec fn frame_ok(b: Seq<u8>) -> bool {
    v1_frame_ok(b) || v2_frame_ok(b)
}

/// No prefix of `s` is a complete, integrity-checked frame: whatever sits
/// at the head of `s` (nothing, an incomplete frame, or a candidate whose
/// checksum fails), no receive call could deliver a frame from it without
/// more data arriving first.
pub open spec fn no_frame_prefix(s: Seq<u8>) -> bool {
    forall|n: int| 0 <= n <= s.len() ==> !#[trigger] frame_ok(s.take(n))
}

/// No complete, integrity-checked frame can be delivered from `s`: at
/// every position reachable by skipping non-frame bytes (in particular at
/// the first acceptable marker), no prefix of the rest is a valid frame.
/// A receive call that reports no frame owes this of what it leaves
/// buffered — it cannot sit on a deliverable frame.
pub open spec fn no_deliverable_frame(s: Seq<u8>, v: ProtocolVersion, any: bool) -> bool {
    forall|k: int|
        0 <= k <= s.len() && (forall|j: int| 0 <= j < k ==> !accepts_byte(v, any, s[j]))
            ==> no_frame_prefix(#[trigger] s.skip(k))
}

/// `after` is `before` with a garbage prefix and one acceptable marker
/// byte removed, and that marker did not begin any complete valid frame:
/// exactly the effect of reporting an integrity mismatch.
pub open spec fn stream_rejects_marker(
    before: Seq<u8>,
    after: Seq<u8>,
    v: ProtocolVersion,
    any: bool,
) -> bool {
    exists|k: int|
        {
            &&& 0 <= k < before.len()
            &&& after == #[trigger] before.skip(k + 1)
            &&& (forall|j: int| 0 <= j < k ==> !accepts_byte(v, any, before[j]))
            &&& accepts_byte(v, any, before[k])
            &&& no_frame_prefix(before.skip(k))
        }
}

/// A buffer that is empty, or whose head is an acceptable marker starting
/// no valid frame, holds no deliverable frame at all: every non-zero
/// garbage skip is stopped by the accepted head byte.
proof fn lemma_no_deliverable_at_marker(s: Seq<u8>, v: ProtocolVersion, any: bool)
    requires
        s.len() == 0 || (accepts_byte(v, any, s[0]) && no_frame_prefix(s)),
    ensures
        no_deliverable_frame(s, v, any),
{
    assert forall|k: int|
        0 <= k <= s.len() && (forall|j: int| 0 <= j < k ==> !accepts_byte(v, any, s[j]))
            implies no_frame_prefix(#[trigger] s.skip(k)) by {
        if k == 0 {
            assert(s.skip(0) =~= s);
            if s.len() == 0 {
                assert forall|n: int| 0 <= n <= s.len() implies !#[trigger] frame_ok(
                    s.take(n),
                ) by {
                    assert(s.take(n).len() == 0);
                };
            }
        } else {
            assert(!accepts_byte(v, any, s[0]));
        }
    };
}

/// A buffer holding at most part of one frame (or nothing) has no valid
/// frame prefix: a complete frame's length is pinned by its first bytes,
/// and those say the buffer is still short of it.
proof fn lemma_no_frame_prefix_incomplete(s: Seq<u8>)
    requires
        s.len() == 0 || (s[0] == MAGIC_V1 && (s.len() < 2 || s.len() < v1_total(s[1]))) || (s[0]
            == MAGIC_V2 && (s.len() < 3 || s.len() < v2_total(s[1], s[2]))),
    ensures
        no_frame_prefix(s),
{
    assert forall|n: int| 0 <= n <= s.len() implies !#[trigger] frame_ok(s.take(n)) by {
        let b = s.take(n);
        if frame_ok(b) {
            assert(b.len() == n);
            assert(n >= 8);
            assert(s.len() >= 8);
            assert(b[0] == s[0]);
            assert(b[1] == s[1]);
            if v1_frame_ok(b) {
                assert(s[0] == MAGIC_V1);
                assert(n == v1_total(s[1]));
            } else {
                assert(v2_frame_ok(b));
                assert(s[0] == MAGIC_V2);
                assert(b[2] == s[2]);
                assert(n == v2_total(s[1], s[2]));
            }
            assert(n <= s.len());
            assert(false);
        }
    };
}

/// A complete candidate frame whose stored checksum does not match the
/// computed one admits no valid frame prefix at all: the marker pins the
/// version, the length byte pins the one possible frame end, and the
/// checksum there fails.
proof fn lemma_no_frame_prefix_bad_crc(s: Seq<u8>, v1: bool)
    requires
        s.len() >= 1,
        s[0] == magic_of(v1),
        v1 ==> s.len() >= v1_total(s[1]) && !v1_crc_ok(s),
        !v1 ==> s.len() >= 3 && s.len() >= v2_total(s[1], s[2]) && !v2_crc_ok(s),
    ensures
        no_frame_prefix(s),
{
    assert forall|n: int| 0 <= n <= s.len() implies !#[trigger] frame_ok(s.take(n)) by {
        let b = s.take(n);
        if frame_ok(b) {
            assert(b.len() == n);
            assert(n >= 8);
            assert(b[0] == s[0]);
            assert(b[1] == s[1]);
            let plen = s[1] as int;
            if v1 {
                assert(v1_frame_ok(b));
                assert(n == v1_total(s[1]));
                assert(b.subrange(1, 6 + plen) =~= s.subrange(1, 6 + plen));
                assert(b[5] == s[5]);
                assert(b[6 + plen] == s[6 + plen]);
                assert(b[7 + plen] == s[7 + plen]);
                assert(v1_crc_ok(s));
                assert(false);
            } else {
                assert(v2_frame_ok(b));
                assert(b[2] == s[2]);
                assert(n == v2_total(s[1], s[2]));
                assert(b.subrange(1, 10 + plen) =~= s.subrange(1, 10 + plen));
                assert(b[7] == s[7] && b[8] == s[8] && b[9] == s[9]);
                assert(b[10 + plen] == s[10 + plen]);
                assert(b[11 + plen] == s[11 + plen]);
                assert(v2_crc_ok(s));
                assert(false);
            }
        }
    };
}

/// The header fields of a complete frame, at the fixed offsets of the wire
/// format of its version.
pub open spec fn header_of(b: Seq<u8>) -> FrameHeader {
    if b.len() >= 1 && b[0] == MAGIC_V1 {
        FrameHeader { system_id: b[3], component_id: b[4], sequence: b[2] }
    } else {
        FrameHeader { system_id: b[5], component_id: b[6], sequence: b[4] }
    }
}

/// `frame` was cut out of the head of `before`, after skipping a prefix in
/// which no acceptable frame start occurs, leaving `after`.
pub open spec fn stream_delivers(
    before: Seq<u8>,
    after: Seq<u8>,
    v: ProtocolVersion,
    any: bool,
    frame: Seq<u8>,
) -> bool {
    exists|k: int|
        {
            &&& 0 <= k
            &&& k + frame.len() <= before.len()
            &&& frame == before.subrange(k, k + frame.len() as int)
            &&& after == #[trigger] before.skip(k + frame.len() as int)
            &&& (forall|j: int| 0 <= j < k ==> !accepts_byte(v, any, before[j]))
        }
}

/// `after` is `before` with a prefix removed in which no acceptable frame
/// start occurs (possibly keeping an incomplete frame at the head).
pub open spec fn stream_skips_garbage(
    before: Seq<u8>,
    after: Seq<u8>,
    v: ProtocolVersion,
    any: bool,
) -> bool {
    exists|k: int|
        {
            &&& 0 <= k <= before.len()
            &&& after == #[trigger] before.skip(k)
            &&& (forall|j: int| 0 <= j < k ==> !accepts_byte(v, any, before[j]))
        }
}

/// Result of one receive attempt that returns the raw frame bytes.
pub enum RawRecv {
    /// A complete, integrity-checked frame and its header.
    Frame { header: FrameHeader, bytes: Vec<u8> },
    /// Not enough buffered data for a complete frame; the link is open.
    Pending,
    /// The inbound side of the link closed with no complete frame left.
    Eof,
    /// A framing failure; the offending bytes were consumed.
    Failed(FramingError),
}

/// Result of one receive attempt that decodes the payload.
pub enum RecvOutcome {
    Frame { header: FrameHeader, message: mavlink::common::MavMessage },
    Pending,
    Eof,
    Failed(FramingError),
}

/// The sequence number following `s`, wrapping at 256.
pub open spec fn seq_next(s: u8) -> u8 {
    if s == 255 {
        0u8
    } else {
        (s + 1) as u8
    }
}

/// The outbound counter steps exactly as addition modulo 256: sequence
/// numbers assigned by consecutive sends increment by one modulo 256,
/// whatever sequence the caller supplied in its header.
pub proof fn lemma_seq_next_is_mod_256(s: u8)
    ensures
        seq_next(s) as int == ((s as int) + 1) % 256,
{
}

/// Returns the bytes of `v` from `i` on.
fn vec_skip(v: &Vec<u8>, i: usize) -> (r: Vec<u8>)
    requires
        i <= v@.len(),
    ensures
        r@ == v@.skip(i as int),
{
    let mut r: Vec<u8> = Vec::new();
    let mut j: usize = i;
    while j < v.len()
        invariant
            i <= j <= v@.len(),
            r@ == v@.subrange(i as int, j as int),
        decreases v@.len() - j,
    {
        r.push(v[j]);
        j = j + 1;
        proof {
            assert(r@ =~= v@.subrange(i as int, j as int));
        }
    }
    proof {
        assert(r@ =~= v@.skip(i as int));
    }
    r
}

/// Returns the bytes of `v` in `[i, j)`.
fn vec_range(v: &Vec<u8>, i: usize, j: usize) -> (r: Vec<u8>)
    requires
        i <= j <= v@.len(),
    ensures
        r@ == v@.subrange(i as int, j as int),
{
    let mut r: Vec<u8> = Vec::new();
    let mut k: usize = i;
    while k < j
        invariant
            i <= k <= j <= v@.len(),
            r@ == v@.subrange(i as int, k as int),
        decreases j - k,
    {
        r.push(v[k]);
        k = k + 1;
        proof {
            assert(r@ =~= v@.subrange(i as int, k as int));
        }
    }
    r
}

/// Index of the first acceptable frame-start marker in `scan`, if any.
fn first_accepted(scan: &Vec<u8>, v: ProtocolVersion, any: bool) -> (r: Option<usize>)
    ensures
        match r {
            Some(i) => {
                &&& i < scan@.len()
                &&& accepts_byte(v, any, scan@[i as int])
                &&& forall|j: int| 0 <= j < i ==> !accepts_byte(v, any, scan@[j])
            },
            None => forall|j: int| 0 <= j < scan@.len() ==> !accepts_byte(v, any, scan@[j]),
        },
{
    let mut i: usize = 0;
    while i < scan.len()
        invariant
            i <= scan@.len(),
            forall|j: int| 0 <= j < i ==> !accepts_byte(v, any, scan@[j]),
        decreases scan@.len() - i,
    {
        let b = scan[i];
        let hit = match v {
            ProtocolVersion::V2 => b == MAGIC_V2 || (any && b == MAGIC_V1),
            ProtocolVersion::V1 => b == MAGIC_V1 || (any && b == MAGIC_V2),
        };
        if hit {
            return Some(i);
        }
        i = i + 1;
    }
    None
}

/// Bytes dropped from the head of the scanned stream are marked as
/// non-frame bytes of the original stream.
proof fn lemma_garbage_marks(
    orig: Seq<u8>,
    g: int,
    scan: Seq<u8>,
    bridge: Seq<u8>,
    d: int,
    v: ProtocolVersion,
    any: bool,
)
    requires
        0 <= g,
        0 <= d <= scan.len(),
        orig.skip(g) == scan + bridge,
        g <= orig.len(),
        forall|idx: int| 0 <= idx < d ==> !accepts_byte(v, any, scan[idx]),
    ensures
        forall|j: int| g <= j < g + d ==> !accepts_byte(v, any, orig[j]),
{
    assert(orig.skip(g).len() == orig.len() - g);
    assert(orig.len() - g == scan.len() + bridge.len());
    assert forall|j: int| g <= j < g + d implies !accepts_byte(v, any, orig[j]) by {
        assert(orig.skip(g)[j - g] == orig[j]);
        assert((scan + bridge)[j - g] == scan[j - g]);
    };
}

/// Cutting `t` bytes off the head of the scan buffer advances the original
/// stream by `t`, and the cut bytes are a contiguous slice of the original.
proof fn lemma_stream_cut(orig: Seq<u8>, g: int, scan: Seq<u8>, bridge: Seq<u8>, t: int)
    requires
        0 <= g,
        0 <= t <= scan.len(),
        orig.skip(g) == scan + bridge,
        g <= orig.len(),
    ensures
        scan.subrange(0, t) == orig.subrange(g, g + t),
        orig.skip(g + t) == scan.skip(t) + bridge,
        g + t <= orig.len(),
{
    assert(orig.skip(g).len() == orig.len() - g);
    assert forall|i: int| 0 <= i < t implies scan[i] == orig[g + i] by {
        assert(orig.skip(g)[i] == orig[g + i]);
        assert((scan + bridge)[i] == scan[i]);
    };
    assert(scan.subrange(0, t) =~= orig.subrange(g, g + t));
    assert forall|i: int| 0 <= i < orig.len() - g - t implies orig[g + t + i] == (scan.skip(t)
        + bridge)[i] by {
        assert(orig.skip(g)[t + i] == orig[g + t + i]);
        assert((scan + bridge)[t + i] == (scan.skip(t) + bridge)[i]);
    };
    assert(orig.skip(g + t) =~= scan.skip(t) + bridge);
}

/// Pulling buffered bytes from the bridge into the scan buffer leaves the
/// combined unconsumed stream unchanged.
proof fn lemma_stream_pull(scan: Seq<u8>, bridge: Seq<u8>, l: int)
    requires
        0 <= l <= bridge.len(),
    ensures
        (scan + bridge.take(l)) + bridge.skip(l) == scan + bridge,
{
    assert((scan + bridge.take(l)) + bridge.skip(l) =~= scan + bridge);
}

/// A message-level connection over one bridged byte link.
///
/// `bridge` is public so the transport driver can push inbound chunks and
/// drain outbound units; the connection itself only reads the inbound
/// stream and writes whole frames.
pub struct StreamConnection {
    /// The bridged byte link beneath this connection.
    pub bridge: ByteBridge,
    /// Inbound bytes pulled from the bridge but not yet consumed by framing.
    scan: Vec<u8>,
    /// Next outbound sequence number.
    tx_seq: u8,
    version: ProtocolVersion,
    recv_any_version: bool,
}

impl StreamConnection {
    /// The unconsumed inbound byte stream: scanned-ahead bytes first, then
    /// what still sits in the bridge.
    pub closed spec fn in_stream(self) -> Seq<u8> {
        self.scan@ + self.bridge.inbound_bytes()
    }

    /// The outbound units queued for the transport driver.
    pub closed spec fn outbound_units(self) -> Seq<Seq<u8>> {
        self.bridge.outbound_units()
    }

    /// The sequence number the next sent frame will carry.
    pub closed spec fn tx_sequence(self) -> u8 {
        self.tx_seq
    }

    pub closed spec fn version_cfg(self) -> ProtocolVersion {
        self.version
    }

    pub closed spec fn accept_any_cfg(self) -> bool {
        self.recv_any_version
    }

    pub closed spec fn wf(self) -> bool {
        self.bridge.wf()
    }

    /// Whether the inbound side of the underlying link is closed.
    pub closed spec fn inbound_is_closed(self) -> bool {
        self.bridge.inbound_is_closed()
    }

    /// The inbound bytes still sitting in the bridge (not yet scanned).
    pub closed spec fn bridge_pending(self) -> Seq<u8> {
        self.bridge.inbound_bytes()
    }

    /// Whether the outbound side of the underlying link is closed.
    pub closed spec fn outbound_is_closed(self) -> bool {
        self.bridge.outbound_is_closed()
    }

    /// Bound on queued outbound units of the underlying link.
    pub closed spec fn outbound_capacity(self) -> nat {
        self.bridge.outbound_capacity()
    }

    /// The configuration and counters `recv` leaves untouched.
    pub open spec fn recv_preserves(self, other: StreamConnection) -> bool {
        &&& other.wf()
        &&& other.version_cfg() == self.version_cfg()
        &&& other.accept_any_cfg() == self.accept_any_cfg()
        &&& other.tx_sequence() == self.tx_sequence()
        &&& other.outbound_units() == self.outbound_units()
        &&& other.outbound_is_closed() == self.outbound_is_closed()
    }

    /// Wraps an already-bridged byte link. The connection starts at the
    /// second protocol version and accepts incoming frames of any version.
    pub fn new(bridge: ByteBridge) -> (r: StreamConnection)
        requires
            bridge.wf(),
        ensures
            r.wf(),
            r.version_cfg() == ProtocolVersion::V2,
            r.accept_any_cfg(),
            r.tx_sequence() == 0,
            r.in_stream() == bridge.inbound_bytes(),
            r.outbound_units() == bridge.outbound_units(),
    {
        let r = StreamConnection {
            bridge,
            scan: Vec::new(),
            tx_seq: 0,
            version: ProtocolVersion::V2,
            recv_any_version: true,
        };
        proof {
            assert(r.in_stream() =~= r.bridge.inbound_bytes());
        }
        r
    }

    /// Sets the protocol version used for outgoing frames (and for incoming
    /// ones unless any version is accepted).
    pub fn set_protocol_version(&mut self, version: ProtocolVersion)
        ensures
            final(self).version_cfg() == version,
            final(self).accept_any_cfg() == old(self).accept_any_cfg(),
            final(self).tx_sequence() == old(self).tx_sequence(),
            final(self).in_stream() == old(self).in_stream(),
            final(self).outbound_units() == old(self).outbound_units(),
            final(self).wf() == old(self).wf(),
    {
        self.version = version;
    }

    pub fn protocol_version(&self) -> (r: ProtocolVersion)
        ensures
            r == self.version_cfg(),
    {
        self.version
    }

    /// Chooses between accepting incoming frames of any version
    /// (auto-detection by the frame's version marker) and only the
    /// configured one.
    pub fn set_allow_recv_any_version(&mut self, allow: bool)
        ensures
            final(self).accept_any_cfg() == allow,
            final(self).version_cfg() == old(self).version_cfg(),
            final(self).tx_sequence() == old(self).tx_sequence(),
            final(self).in_stream() == old(self).in_stream(),
            final(self).outbound_units() == old(self).outbound_units(),
            final(self).wf() == old(self).wf(),
    {
        self.recv_any_version = allow;
    }

    pub fn allow_recv_any_version(&self) -> (r: bool)
        ensures
            r == self.accept_any_cfg(),
    {
        self.recv_any_version
    }

    /// Closes the inbound side of the underlying link: buffered data stays
    /// readable, then receiving reports end of stream.
    pub fn close_inbound(&mut self)
        requires
            old(self).wf(),
        ensures
            final(self).wf(),
            final(self).inbound_is_closed(),
            final(self).outbound_is_closed() == old(self).outbound_is_closed(),
            final(self).in_stream() == old(self).in_stream(),
            final(self).outbound_units() == old(self).outbound_units(),
            final(self).tx_sequence() == old(self).tx_sequence(),
            final(self).version_cfg() == old(self).version_cfg(),
            final(self).accept_any_cfg() == old(self).accept_any_cfg(),
    {
        self.bridge.close_inbound();
    }

    /// Closes the outbound side of the underlying link: queued units stay
    /// drainable, further sends report the link closed.
    pub fn close_outbound(&mut self)
        requires
            old(self).wf(),
        ensures
            final(self).wf(),
            final(self).outbound_is_closed(),
            final(self).inbound_is_closed() == old(self).inbound_is_closed(),
            final(self).in_stream() == old(self).in_stream(),
            final(self).outbound_units() == old(self).outbound_units(),
            final(self).tx_sequence() == old(self).tx_sequence(),
            final(self).version_cfg() == old(self).version_cfg(),
            final(self).accept_any_cfg() == old(self).accept_any_cfg(),
    {
        self.bridge.close_outbound();
    }

    /// Sends one message: assigns this connection's next sequence number
    /// (ignoring the sequence the caller supplied), advances the counter
    /// (wrapping at 256), serializes the frame and queues it as one
    /// outbound unit. Returns the number of bytes written.
    ///
    /// Succeeds whenever the second protocol version is configured, the
    /// link is open and the outbound queue has room; `WouldBlock` asks the
    /// caller to suspend and retry without a sequence number being used up.
    pub fn send(&mut self, header: &FrameHeader, message: &mavlink::common::MavMessage) -> (r:
        Result<usize, SendError>)
        requires
            old(self).wf(),
        ensures
            final(self).wf(),
            final(self).version_cfg() == old(self).version_cfg(),
            final(self).accept_any_cfg() == old(self).accept_any_cfg(),
            final(self).in_stream() == old(self).in_stream(),
            match r {
                Ok(n) => {
                    let v1 = old(self).version_cfg() is V1;
                    let b = final(self).outbound_units().last();
                    &&& final(self).tx_sequence() == seq_next(old(self).tx_sequence())
                    &&& final(self).outbound_units() == old(self).outbound_units().push(b)
                    &&& n == b.len()
                    &&& b.len() >= 8
                    &&& b[0] == magic_of(v1)
                    &&& b[seq_offset(v1)] == old(self).tx_sequence()
                    &&& b[sysid_offset(v1)] == header.system_id
                    &&& b[compid_offset(v1)] == header.component_id
                },
                Err(e) => {
                    &&& final(self).tx_sequence() == old(self).tx_sequence()
                    &&& final(self).outbound_units() == old(self).outbound_units()
                    &&& (e == SendError::UnsupportedMessage ==> old(self).version_cfg() is V1)
                    &&& (e == SendError::Closed ==> old(self).outbound_is_closed())
                    &&& (old(self).version_cfg() is V2 && old(self).outbound_is_closed() ==> e
                        == SendError::Closed)
                    &&& (e == SendError::WouldBlock ==> !old(self).outbound_is_closed()
                        && old(self).outbound_units().len()
                        >= old(self).outbound_capacity())
                },
            },
            old(self).version_cfg() is V2 && !old(self).outbound_is_closed() && old(
                self,
            ).outbound_units().len() < old(self).outbound_capacity() ==> r is Ok,
    {
        let v1 = match self.version {
            ProtocolVersion::V1 => true,
            ProtocolVersion::V2 => false,
        };
        match encode_frame(v1, self.tx_seq, header.system_id, header.component_id, message) {
            Err(e) => Err(e),
            Ok(frame) => {
                let n = frame.len();
                let ghost fb = frame@;
                match self.bridge.write(frame) {
                    WriteOutcome::Queued => {
                        self.tx_seq = if self.tx_seq == 255 {
                            0
                        } else {
                            self.tx_seq + 1
                        };
                        proof {
                            assert(self.outbound_units() == old(self).outbound_units().push(fb));
                            assert(self.outbound_units().last() == fb);
                            assert(self.in_stream() =~= old(self).in_stream());
                        }
                        Ok(n)
                    },
                    WriteOutcome::WouldBlock => Err(SendError::WouldBlock),
                    WriteOutcome::Closed => Err(SendError::Closed),
                }
            },
        }
    }


    /// Receives the next frame without decoding its payload: synchronises
    /// to the next acceptable frame start, validates the integrity check
    /// and returns the raw frame bytes with the header fields read from
    /// their fixed offsets.
    #[verifier::rlimit(80)]
    pub fn recv_raw(&mut self) -> (r: RawRecv)
        requires
            old(self).wf(),
        ensures
            old(self).recv_preserves(*final(self)),
            match r {
                RawRecv::Frame { header, bytes } => {
                    &&& frame_ok(bytes@)
                    &&& accepts_byte(
                        old(self).version_cfg(),
                        old(self).accept_any_cfg(),
                        bytes@[0],
                    )
                    &&& header == header_of(bytes@)
                    &&& stream_delivers(
                        old(self).in_stream(),
                        final(self).in_stream(),
                        old(self).version_cfg(),
                        old(self).accept_any_cfg(),
                        bytes@,
                    )
                },
                RawRecv::Pending => {
                    &&& stream_skips_garbage(
                        old(self).in_stream(),
                        final(self).in_stream(),
                        old(self).version_cfg(),
                        old(self).accept_any_cfg(),
                    )
                    &&& no_deliverable_frame(
                        final(self).in_stream(),
                        old(self).version_cfg(),
                        old(self).accept_any_cfg(),
                    )
                    &&& final(self).bridge_pending().len() == 0
                    &&& !final(self).inbound_is_closed()
                },
                RawRecv::Eof => {
                    &&& stream_skips_garbage(
                        old(self).in_stream(),
                        final(self).in_stream(),
                        old(self).version_cfg(),
                        old(self).accept_any_cfg(),
                    )
                    &&& no_deliverable_frame(
                        final(self).in_stream(),
                        old(self).version_cfg(),
                        old(self).accept_any_cfg(),
                    )
                    &&& final(self).bridge_pending().len() == 0
                    &&& final(self).inbound_is_closed()
                },
                RawRecv::Failed(e) => {
                    &&& e == FramingError::Integrity
                    &&& final(self).in_stream().len() < old(self).in_stream().len()
                    &&& stream_rejects_marker(
                        old(self).in_stream(),
                        final(self).in_stream(),
                        old(self).version_cfg(),
                        old(self).accept_any_cfg(),
                    )
                },
            },
    {
        let ghost orig = self.in_stream();
        let ghost mut g: int = 0;
        loop
            invariant
                self.wf(),
                self.version == old(self).version_cfg(),
                self.recv_any_version == old(self).accept_any_cfg(),
                self.tx_seq == old(self).tx_sequence(),
                self.outbound_units() == old(self).outbound_units(),
                self.bridge.outbound_is_closed() == old(self).bridge.outbound_is_closed(),
                self.bridge.inbound_is_closed() == old(self).bridge.inbound_is_closed(),
                orig == old(self).in_stream(),
                0 <= g <= orig.len(),
                self.in_stream() == orig.skip(g),
                forall|j: int| 0 <= j < g ==> !accepts_byte(
                    old(self).version_cfg(),
                    old(self).accept_any_cfg(),
                    orig[j],
                ),
            decreases self.in_stream().len(), self.bridge.inbound_bytes().len(),
        {
            let ghost bridge_at_entry = self.bridge.inbound_bytes();
            let ghost cfg_v = old(self).version_cfg();
            let ghost cfg_any = old(self).accept_any_cfg();
            // Synchronise to the next acceptable frame start.
            match first_accepted(&self.scan, self.version, self.recv_any_version) {
                None => {
                    let dropped = self.scan.len();
                    let ghost pre_scan = self.scan@;
                    let ghost pre_bridge = self.bridge.inbound_bytes();
                    proof {
                        lemma_garbage_marks(
                            orig,
                            g,
                            pre_scan,
                            pre_bridge,
                            pre_scan.len() as int,
                            cfg_v,
                            cfg_any,
                        );
                        lemma_stream_cut(orig, g, pre_scan, pre_bridge, pre_scan.len() as int);
                        assert(pre_scan.skip(pre_scan.len() as int) =~= Seq::<u8>::empty());
                        g = g + dropped;
                        assert(orig.skip(g) =~= pre_bridge);
                    }
                    self.scan = Vec::new();
                    proof {
                        assert(self.in_stream() =~= pre_bridge);
                    }
                    match self.bridge.read(256) {
                        ReadOutcome::Data(mut d) => {
                            let ghost l = d@.len() as int;
                            self.scan.append(&mut d);
                            proof {
                                assert(self.scan@ =~= pre_bridge.take(l));
                                lemma_stream_pull(Seq::<u8>::empty(), pre_bridge, l);
                                assert(self.in_stream() =~= pre_bridge);
                                assert(self.bridge.inbound_bytes().len() < bridge_at_entry.len());
                            }
                        },
                        ReadOutcome::Pending => {
                            proof {
                                assert(self.in_stream() == orig.skip(g));
                                assert(stream_skips_garbage(
                                    orig,
                                    self.in_stream(),
                                    cfg_v,
                                    cfg_any,
                                ));
                                assert(self.in_stream().len() == 0);
                                lemma_no_deliverable_at_marker(self.in_stream(), cfg_v, cfg_any);
                            }
                            return RawRecv::Pending;
                        },
                        ReadOutcome::Eof => {
                            proof {
                                assert(self.in_stream() == orig.skip(g));
                                assert(stream_skips_garbage(
                                    orig,
                                    self.in_stream(),
                                    cfg_v,
                                    cfg_any,
                                ));
                                assert(self.in_stream().len() == 0);
                                lemma_no_deliverable_at_marker(self.in_stream(), cfg_v, cfg_any);
                            }
                            return RawRecv::Eof;
                        },
                    }
                    continue ;
                },
                Some(i) => {
                    if i > 0 {
                        let ghost pre_scan = self.scan@;
                        let ghost pre_bridge = self.bridge.inbound_bytes();
                        proof {
                            lemma_garbage_marks(
                                orig,
                                g,
                                pre_scan,
                                pre_bridge,
                                i as int,
                                cfg_v,
                                cfg_any,
                            );
                            lemma_stream_cut(orig, g, pre_scan, pre_bridge, i as int);
                        }
                        let rest = vec_skip(&self.scan, i);
                        self.scan = rest;
                        proof {
                            g = g + i;
                            assert(self.in_stream() == orig.skip(g));
                        }
                    }
                },
            }
            // The scan buffer now starts with an acceptable marker.
            let v1 = self.scan[0] == MAGIC_V1;
            let need_header: usize = if v1 { 2 } else { 3 };
            let mut need: usize = need_header;
            if self.scan.len() >= need_header {
                let plen = self.scan[1] as usize;
                need = if v1 {
                    8 + plen
                } else {
                    12 + plen + (if self.scan[2] & 1 == 1 { 13 } else { 0 })
                };
            }
            if self.scan.len() < need {
                // Pull more data for the incomplete frame.
                let ghost pre_scan = self.scan@;
                let ghost pre_bridge = self.bridge.inbound_bytes();
                match self.bridge.read(256) {
                    ReadOutcome::Data(mut d) => {
                        let ghost l = d@.len() as int;
                        self.scan.append(&mut d);
                        proof {
                            lemma_stream_pull(pre_scan, pre_bridge, l);
                            assert(self.in_stream() =~= (pre_scan + pre_bridge.take(l))
                                + pre_bridge.skip(l));
                            assert(self.in_stream() == orig.skip(g));
                            assert(self.bridge.inbound_bytes().len() < bridge_at_entry.len());
                        }
                        continue ;
                    },
                    ReadOutcome::Pending => {
                        proof {
                            assert(stream_skips_garbage(orig, self.in_stream(), cfg_v, cfg_any));
                            assert(self.in_stream() =~= self.scan@);
                            assert(accepts_byte(cfg_v, cfg_any, self.in_stream()[0]));
                            lemma_no_frame_prefix_incomplete(self.in_stream());
                            lemma_no_deliverable_at_marker(self.in_stream(), cfg_v, cfg_any);
                        }
                        return RawRecv::Pending;
                    },
                    ReadOutcome::Eof => {
                        proof {
                            assert(stream_skips_garbage(orig, self.in_stream(), cfg_v, cfg_any));
                            assert(self.in_stream() =~= self.scan@);
                            assert(accepts_byte(cfg_v, cfg_any, self.in_stream()[0]));
                            lemma_no_frame_prefix_incomplete(self.in_stream());
                            lemma_no_deliverable_at_marker(self.in_stream(), cfg_v, cfg_any);
                        }
                        return RawRecv::Eof;
                    },
                }
            }
            // A complete candidate frame: validate its integrity check.
            let plen = self.scan[1] as usize;
            let total = if v1 {
                8 + plen
            } else {
                12 + plen + (if self.scan[2] & 1 == 1 { 13 } else { 0 })
            };
            let hs: usize = if v1 { 5 } else { 9 };
            let msgid: u32 = if v1 {
                self.scan[5] as u32
            } else {
                (self.scan[7] as u32) + 256 * (self.scan[8] as u32) + 65536 * (
                self.scan[9] as u32)
            };
            let covered = slice_subrange(self.scan.as_slice(), 1, 1 + hs + plen);
            let extra = <mavlink::common::MavMessage as mavlink::Message>::extra_crc(msgid);
            let expected = mavlink::calculate_crc(covered, extra);
            let stored: u16 = (self.scan[1 + hs + plen] as u16) + 256 * (
            self.scan[2 + hs + plen] as u16);
            if stored != expected {
                // Integrity mismatch: consume the marker byte and let the
                // next call rescan from the byte after it.
                let ghost pre_scan = self.scan@;
                let ghost pre_bridge = self.bridge.inbound_bytes();
                proof {
                    lemma_stream_cut(orig, g, pre_scan, pre_bridge, 1);
                    // The marker did not begin a valid frame: the stored
                    // checksum of the one possible frame end fails.
                    let ghost rem = orig.skip(g);
                    assert(rem == pre_scan + pre_bridge);
                    assert forall|i: int| 0 <= i < pre_scan.len() implies rem[i]
                        == pre_scan[i] by {
                        assert((pre_scan + pre_bridge)[i] == pre_scan[i]);
                    };
                    if v1 {
                        assert(rem.subrange(1, 6 + plen) =~= covered@);
                        assert(rem[5] as u32 == msgid);
                        assert((stored as int) == (rem[6 + plen] as int) + 256 * (rem[7
                            + plen] as int));
                        assert(!v1_crc_ok(rem)) by {
                            if v1_crc_ok(rem) {
                                assert(stored as int == expected as int);
                            }
                        };
                        lemma_no_frame_prefix_bad_crc(rem, true);
                    } else {
                        assert(rem[0] == MAGIC_V2);
                        assert(rem.subrange(1, 10 + plen) =~= covered@);
                        assert(((rem[7] as int) + 256 * (rem[8] as int) + 65536 * (
                        rem[9] as int)) as u32 == msgid);
                        assert((stored as int) == (rem[10 + plen] as int) + 256 * (rem[11
                            + plen] as int));
                        assert(!v2_crc_ok(rem)) by {
                            if v2_crc_ok(rem) {
                                assert(stored as int == expected as int);
                            }
                        };
                        lemma_no_frame_prefix_bad_crc(rem, false);
                    }
                    assert(accepts_byte(cfg_v, cfg_any, orig[g]));
                }
                let rest = vec_skip(&self.scan, 1);
                self.scan = rest;
                proof {
                    assert(self.in_stream() == orig.skip(g + 1));
                    assert(self.in_stream().len() == orig.len() - g - 1);
                    assert(stream_rejects_marker(orig, self.in_stream(), cfg_v, cfg_any));
                }
                return RawRecv::Failed(FramingError::Integrity);
            }
            let ghost pre_scan = self.scan@;
            let ghost pre_bridge = self.bridge.inbound_bytes();
            let ghost covered_view = covered@;
            let frame = vec_range(&self.scan, 0, total);
            let header = if v1 {
                FrameHeader {
                    system_id: self.scan[3],
                    component_id: self.scan[4],
                    sequence: self.scan[2],
                }
            } else {
                FrameHeader {
                    system_id: self.scan[5],
                    component_id: self.scan[6],
                    sequence: self.scan[4],
                }
            };
            let rest = vec_skip(&self.scan, total);
            self.scan = rest;
            proof {
                lemma_stream_cut(orig, g, pre_scan, pre_bridge, total as int);
                assert(frame@ == orig.subrange(g, g + total));
                assert(self.in_stream() == orig.skip(g + total));
                // The integrity check just performed is exactly the one the
                // frame-validity predicate asks for.
                assert(frame@.subrange(1, 1 + hs + plen) =~= covered_view);
                assert((stored as int) == (frame@[1 + hs + plen] as int) + 256 * (frame@[2 + hs
                    + plen] as int));
                if v1 {
                    assert(frame@[5] as u32 == msgid);
                    assert(v1_frame_ok(frame@));
                } else {
                    assert(((frame@[7] as int) + 256 * (frame@[8] as int) + 65536 * (
                    frame@[9] as int)) as u32 == msgid);
                    assert(v2_frame_ok(frame@));
                }
                assert(stream_delivers(orig, self.in_stream(), cfg_v, cfg_any, frame@));
            }
            return RawRecv::Frame { header, bytes: frame };
        }
    }

    /// Receives the next message: synchronises, validates the integrity
    /// check, and decodes the payload into a typed message. A frame whose
    /// payload cannot be decoded is consumed and reported `Malformed`; an
    /// integrity mismatch consumes the offending marker byte and is
    /// reported `Integrity`.
    pub fn recv(&mut self) -> (r: RecvOutcome)
        requires
            old(self).wf(),
        ensures
            old(self).recv_preserves(*final(self)),
            match r {
                RecvOutcome::Frame { header, message } => {
                    exists|b: Seq<u8>|
                        {
                            &&& frame_ok(b)
                            &&& accepts_byte(
                                old(self).version_cfg(),
                                old(self).accept_any_cfg(),
                                b[0],
                            )
                            &&& header == header_of(b)
                            &&& stream_delivers(
                                old(self).in_stream(),
                                final(self).in_stream(),
                                old(self).version_cfg(),
                                old(self).accept_any_cfg(),
                                b,
                            )
                        }
                },
                RecvOutcome::Pending => {
                    &&& stream_skips_garbage(
                        old(self).in_stream(),
                        final(self).in_stream(),
                        old(self).version_cfg(),
                        old(self).accept_any_cfg(),
                    )
                    &&& no_deliverable_frame(
                        final(self).in_stream(),
                        old(self).version_cfg(),
                        old(self).accept_any_cfg(),
                    )
                    &&& final(self).bridge_pending().len() == 0
                    &&& !final(self).inbound_is_closed()
                },
                RecvOutcome::Eof => {
                    &&& stream_skips_garbage(
                        old(self).in_stream(),
                        final(self).in_stream(),
                        old(self).version_cfg(),
                        old(self).accept_any_cfg(),
                    )
                    &&& no_deliverable_frame(
                        final(self).in_stream(),
                        old(self).version_cfg(),
                        old(self).accept_any_cfg(),
                    )
                    &&& final(self).bridge_pending().len() == 0
                    &&& final(self).inbound_is_closed()
                },
                RecvOutcome::Failed(e) => {
                    &&& final(self).in_stream().len() < old(self).in_stream().len()
                    &&& (e == FramingError::Integrity ==> stream_rejects_marker(
                        old(self).in_stream(),
                        final(self).in_stream(),
                        old(self).version_cfg(),
                        old(self).accept_any_cfg(),
                    ))
                    &&& (e == FramingError::Malformed ==> exists|b: Seq<u8>|
                        {
                            &&& frame_ok(b)
                            &&& stream_delivers(
                                old(self).in_stream(),
                                final(self).in_stream(),
                                old(self).version_cfg(),
                                old(self).accept_any_cfg(),
                                b,
                            )
                        })
                },
            },
    {
        match self.recv_raw() {
            RawRecv::Frame { header, bytes } => {
                let v1 = bytes[0] == MAGIC_V1;
                let plen = bytes[1] as usize;
                let hs: usize = if v1 { 5 } else { 9 };
                let msgid: u32 = if v1 {
                    bytes[5] as u32
                } else {
                    (bytes[7] as u32) + 256 * (bytes[8] as u32) + 65536 * (bytes[9] as u32)
                };
                let payload = slice_subrange(bytes.as_slice(), 1 + hs, 1 + hs + plen);
                match parse_payload(v1, msgid, payload) {
                    Ok(message) => RecvOutcome::Frame { header, message },
                    Err(e) => RecvOutcome::Failed(e),
                }
            },
            RawRecv::Pending => RecvOutcome::Pending,
            RawRecv::Eof => RecvOutcome::Eof,
            RawRecv::Failed(e) => RecvOutcome::Failed(e),
        }
    }
}

} // verus!
