//! Mission transfer: stateful protocols for uploading, downloading,
//! clearing, verifying and selecting waypoint/fence/rally plans against the
//! remote mission store.
//!
//! Each transfer is a state machine driven by the caller's event loop: the
//! caller delivers the remote's protocol messages (and timeouts) as events,
//! and every step returns the action to transmit next. A transfer either
//! fully completes or ends failed or cancelled — no partial success is
//! reported, and after a failure the remote's mission state must be treated
//! as indeterminate.
//!
//! Cancellation is cooperative: `cancel_transfer` sets a flag, and the very
//! next event or timeout resolves the transfer with a `Cancelled` outcome
//! instead of continuing, so an in-flight call never hangs and the
//! connection is never torn down by a cancel.

use vstd::prelude::*;

verus! {

/// Bounded number of resends of one outstanding request before a transfer
/// fails with a timeout.
pub const MAX_TRANSFER_RETRIES: u32 = 5;

/// Acknowledgment code of an accepted mission operation.
pub const MISSION_ACCEPTED: u8 = 0;

/// The three plan kinds carried by the same transfer protocol.
#[derive(Clone, Copy, PartialEq, Eq, Structural, Debug)]
pub enum MissionType {
    Mission,
    Fence,
    Rally,
}

/// One positional/command waypoint record. Coordinates are scaled integers
/// (degrees times 1e7), and the four parameters and the altitude carry the
/// IEEE-754 bit patterns of the wire's 32-bit float fields, so that the
/// record is compared and stored exactly, bit for bit.
#[derive(Clone, Copy, PartialEq, Eq, Structural, Debug)]
pub struct MissionItem {
    /// Zero-based position of the item within its plan.
    pub seq: u16,
    /// Frame of reference of the coordinates.
    pub frame: u8,
    /// Command id of the item.
    pub command: u16,
    /// Whether this item is the current one.
    pub current: u8,
    /// Whether the mission continues past this item automatically.
    pub autocontinue: u8,
    /// Bit pattern of the first command parameter.
    pub param1: u32,
    /// Bit pattern of the second command parameter.
    pub param2: u32,
    /// Bit pattern of the third command parameter.
    pub param3: u32,
    /// Bit pattern of the fourth command parameter.
    pub param4: u32,
    /// Latitude in degrees times 1e7.
    pub x: i32,
    /// Longitude in degrees times 1e7.
    pub y: i32,
    /// Bit pattern of the altitude field.
    pub z: u32,
}

/// An ordered plan of mission items; order is semantically significant.
/// An empty plan is valid and equivalent to "cleared".
pub struct MissionPlan {
    pub mission_type: MissionType,
    pub items: Vec<MissionItem>,
}

/// A defect found by `validate_plan`.
#[derive(Clone, Copy, PartialEq, Eq, Structural, Debug)]
pub enum MissionIssue {
    /// Item at `index` carries sequence number `found` instead of `index`.
    SequenceMismatch { index: u16, found: u16 },
    /// The plan holds more items than a transfer can count.
    TooManyItems { count: usize },
}

/// A plan fit for upload: sequence indices are contiguous and zero-based,
/// and the item count fits the protocol's 16-bit count field.
pub open spec fn plan_well_formed(p: MissionPlan) -> bool {
    &&& p.items@.len() <= 0xFFFF
    &&& forall|i: int| 0 <= i < p.items@.len() ==> (#[trigger] p.items@[i]).seq == i
}

/// The sequence-mismatch issues of a prefix of the item list, in index
/// order.
pub open spec fn mismatch_issues(items: Seq<MissionItem>) -> Seq<MissionIssue>
    decreases items.len(),
{
    if items.len() == 0 {
        Seq::empty()
    } else if items.last().seq == items.len() - 1 {
        mismatch_issues(items.drop_last())
    } else {
        mismatch_issues(items.drop_last()).push(
            MissionIssue::SequenceMismatch {
                index: (items.len() - 1) as u16,
                found: items.last().seq,
            },
        )
    }
}

/// There are no sequence-mismatch issues exactly when every item carries
/// its own index.
pub proof fn lemma_mismatch_issues_empty(items: Seq<MissionItem>)
    ensures
        mismatch_issues(items).len() == 0 <==> (forall|i: int|
            0 <= i < items.len() ==> (#[trigger] items[i]).seq == i),
    decreases items.len(),
{
    if items.len() > 0 {
        lemma_mismatch_issues_empty(items.drop_last());
        if mismatch_issues(items).len() == 0 {
            assert forall|i: int| 0 <= i < items.len() implies (#[trigger] items[i]).seq == i by {
                if i < items.len() - 1 {
                    assert(items.drop_last()[i] == items[i]);
                }
            };
        }
    }
}

/// Checks a plan for upload: reports each item whose sequence number is not
/// its zero-based position, in index order, or that the plan is too large
/// to transfer. An empty result means the plan is well-formed.
pub fn validate_plan(plan: &MissionPlan) -> (issues: Vec<MissionIssue>)
    ensures
        issues@.len() == 0 <==> plan_well_formed(*plan),
        plan.items@.len() > 0xFFFF ==> issues@ == seq![
            MissionIssue::TooManyItems { count: plan.items@.len() as usize },
        ],
        plan.items@.len() <= 0xFFFF ==> issues@ == mismatch_issues(plan.items@),
{
    if plan.items.len() > 0xFFFF {
        let mut issues: Vec<MissionIssue> = Vec::new();
        issues.push(MissionIssue::TooManyItems { count: plan.items.len() });
        proof {
            assert(issues@ =~= seq![MissionIssue::TooManyItems { count: plan.items@.len() as usize }]);
        }
        return issues;
    }
    let mut issues: Vec<MissionIssue> = Vec::new();
    let mut i: usize = 0;
    while i < plan.items.len()
        invariant
            i <= plan.items@.len() <= 0xFFFF,
            issues@ == mismatch_issues(plan.items@.take(i as int)),
        decreases plan.items@.len() - i,
    {
        let ghost pre = plan.items@.take(i as int);
        let item = plan.items[i];
        if item.seq as usize != i {
            issues.push(MissionIssue::SequenceMismatch { index: i as u16, found: item.seq });
        }
        i = i + 1;
        proof {
            let cur = plan.items@.take(i as int);
            assert(cur.drop_last() =~= pre);
            assert(cur.last() == item);
        }
    }
    proof {
        assert(plan.items@.take(plan.items@.len() as int) =~= plan.items@);
        lemma_mismatch_issues_empty(plan.items@);
    }
    issues
}

/// Structural comparison of two plans, field by field and order-sensitive:
/// true exactly when the plans are identical item for item. This is the
/// check behind upload/download roundtrip verification: the roundtrip is
/// verified exactly when the downloaded plan reconstructs the uploaded one,
/// and any single differing field of any item makes it false.
pub fn verify_roundtrip(sent: &MissionPlan, received: &MissionPlan) -> (r: bool)
    ensures
        r <==> (sent.mission_type == received.mission_type && sent.items@ =~= received.items@),
{
    if sent.mission_type != received.mission_type {
        return false;
    }
    if sent.items.len() != received.items.len() {
        return false;
    }
    let mut i: usize = 0;
    while i < sent.items.len()
        invariant
            i <= sent.items@.len(),
            sent.items@.len() == received.items@.len(),
            forall|j: int| 0 <= j < i ==> sent.items@[j] == received.items@[j],
        decreases sent.items@.len() - i,
    {
        if sent.items[i] != received.items[i] {
            return false;
        }
        i = i + 1;
    }
    proof {
        assert(sent.items@ =~= received.items@);
    }
    true
}

/// Phase of a transfer, for progress reporting.
#[derive(Clone, Copy, PartialEq, Eq, Structural, Debug)]
pub enum TransferPhase {
    Idle,
    RequestingCount,
    ExchangingItems,
    Confirming,
}

/// Progress of one transfer attempt; `current` never decreases within one
/// attempt and is reset between transfers.
#[derive(Clone, Copy, PartialEq, Eq, Structural, Debug)]
pub struct TransferProgress {
    pub phase: TransferPhase,
    pub current: u32,
    pub total: u32,
}

/// Why a transfer failed.
#[derive(Clone, Copy, PartialEq, Eq, Structural, Debug)]
pub enum TransferError {
    /// The plan offered to `MissionUpload::start` was not well-formed.
    InvalidPlan,
    /// The remote requested an item index outside the plan.
    RequestOutOfRange { seq: u16 },
    /// The remote rejected the operation with this result code.
    Nack { code: u8 },
    /// The bounded resends of one request were exhausted.
    Timeout,
    /// The remote sent an out-of-order or duplicate item index.
    UnexpectedItem { expected: u16, found: u16 },
}

/// Terminal state of one transfer. `Cancelled` is a distinct non-error
/// outcome, so callers can tell "I cancelled it" from "it failed".
#[derive(Clone, Copy, PartialEq, Eq, Structural, Debug)]
pub enum TransferOutcome {
    Success,
    Failed(TransferError),
    Cancelled,
}

/// What the caller must transmit after a transfer step.
#[derive(Clone, Copy, PartialEq, Eq, Structural, Debug)]
pub enum MissionAction {
    /// Nothing to transmit; await the next event or timeout.
    Wait,
    /// Announce the item count of an upload.
    SendCount { mission_type: MissionType, count: u16 },
    /// Send one mission item, in reply to the remote's request.
    SendItem { item: MissionItem },
    /// Request the item with the given index.
    SendRequest { mission_type: MissionType, seq: u16 },
    /// Request the remote's item count.
    SendRequestList { mission_type: MissionType },
    /// Acknowledge the end of a download.
    SendAck { mission_type: MissionType, code: u8 },
    /// Ask the remote to clear its plan of this kind.
    SendClearAll { mission_type: MissionType },
    /// Ask the remote to make this item current.
    SendSetCurrent { seq: u16 },
}

/// What an upload resends on a timeout.
#[derive(Clone, Copy, PartialEq, Eq, Structural, Debug)]
enum UploadLastSent {
    Count,
    Item { seq: u16 },
}

/// Upload state machine: announces the item count, serves the remote's
/// per-index item requests (driven by the remote, not by local iteration
/// order), and finishes on the remote's acknowledgment.
pub struct MissionUpload {
    plan: MissionPlan,
    last_sent: UploadLastSent,
    items_sent: u16,
    retries: u32,
    cancel_requested: bool,
    outcome: Option<TransferOutcome>,
}

impl MissionUpload {
    /// The plan being uploaded.
    pub closed spec fn plan(self) -> MissionPlan {
        self.plan
    }

    pub closed spec fn outcome(self) -> Option<TransferOutcome> {
        self.outcome
    }

    /// No terminal outcome yet.
    pub open spec fn in_flight(self) -> bool {
        self.outcome() is None
    }

    /// Cancellation was requested and will resolve the transfer at the next
    /// event or timeout.
    pub closed spec fn cancel_pending(self) -> bool {
        self.cancel_requested
    }

    /// Number of items sent so far (highest requested index plus one).
    pub closed spec fn items_sent(self) -> u16 {
        self.items_sent
    }

    pub closed spec fn retries(self) -> u32 {
        self.retries
    }

    /// The index of the last item sent, or nothing while the count
    /// announcement is the outstanding message.
    pub closed spec fn last_sent_item(self) -> Option<u16> {
        match self.last_sent {
            UploadLastSent::Count => Option::None,
            UploadLastSent::Item { seq } => Option::Some(seq),
        }
    }

    /// What a timeout would resend now: the count announcement until the
    /// first item request arrives, the last sent item afterwards.
    pub open spec fn resend_action(self) -> MissionAction {
        match self.last_sent_item() {
            Option::None => MissionAction::SendCount {
                mission_type: self.plan().mission_type,
                count: self.plan().items@.len() as u16,
            },
            Option::Some(seq) => MissionAction::SendItem {
                item: self.plan().items@[seq as int],
            },
        }
    }

    pub closed spec fn wf(self) -> bool {
        &&& plan_well_formed(self.plan)
        &&& self.items_sent <= self.plan.items@.len()
        &&& self.retries <= MAX_TRANSFER_RETRIES
        &&& (self.last_sent matches UploadLastSent::Item { seq } ==> (seq as int)
            < self.plan.items@.len())
    }

    /// Progress as published after every step: `current` counts the items
    /// sent, `total` is the plan length.
    pub open spec fn spec_progress(self) -> TransferProgress {
        TransferProgress {
            phase: if self.outcome() is Some {
                TransferPhase::Idle
            } else if self.last_sent_item() is None {
                TransferPhase::RequestingCount
            } else {
                TransferPhase::ExchangingItems
            },
            current: self.items_sent() as u32,
            total: self.plan().items@.len() as u32,
        }
    }

    /// Begins an upload: validates the plan and announces the item count.
    /// Returns `InvalidPlan` exactly when the plan is not well-formed.
    pub fn start(plan: MissionPlan) -> (r: Result<(MissionUpload, MissionAction), TransferError>)
        ensures
            r is Ok <==> plan_well_formed(plan),
            r is Err ==> r == Err::<(MissionUpload, MissionAction), TransferError>(
                TransferError::InvalidPlan,
            ),
            r matches Ok((e, a)) ==> {
                &&& e.wf()
                &&& e.plan() == plan
                &&& e.in_flight()
                &&& !e.cancel_pending()
                &&& e.items_sent() == 0
                &&& e.retries() == 0
                &&& e.last_sent_item() == Option::<u16>::None
                &&& a == MissionAction::SendCount {
                    mission_type: plan.mission_type,
                    count: plan.items@.len() as u16,
                }
                &&& e.resend_action() == a
            },
    {
        let issues = validate_plan(&plan);
        if issues.len() > 0 {
            return Err(TransferError::InvalidPlan);
        }
        let count = plan.items.len() as u16;
        let mission_type = plan.mission_type;
        let e = MissionUpload {
            plan,
            last_sent: UploadLastSent::Count,
            items_sent: 0,
            retries: 0,
            cancel_requested: false,
            outcome: None,
        };
        Ok((e, MissionAction::SendCount { mission_type, count }))
    }

    /// The remote requested item `seq`: send it, or fail if the index lies
    /// outside the plan. A pending cancellation resolves the transfer
    /// instead.
    pub fn on_request(&mut self, seq: u16) -> (a: MissionAction)
        requires
            old(self).wf(),
            old(self).in_flight(),
        ensures
            final(self).wf(),
            final(self).plan() == old(self).plan(),
            final(self).cancel_pending() == old(self).cancel_pending(),
            old(self).cancel_pending() ==> final(self).outcome() == Some(
                TransferOutcome::Cancelled,
            ) && a == MissionAction::Wait,
            !old(self).cancel_pending() && (seq as int) < old(self).plan().items@.len() ==> {
                &&& final(self).in_flight()
                &&& a == MissionAction::SendItem { item: old(self).plan().items@[seq as int] }
                &&& final(self).last_sent_item() == Some(seq)
                &&& final(self).resend_action() == a
                &&& final(self).retries() == 0
                &&& final(self).items_sent() == (if seq + 1 > old(self).items_sent() {
                    (seq + 1) as u16
                } else {
                    old(self).items_sent()
                })
                &&& final(self).items_sent() >= old(self).items_sent()
            },
            !old(self).cancel_pending() && (seq as int) >= old(self).plan().items@.len() ==> {
                &&& final(self).outcome() == Some(
                    TransferOutcome::Failed(TransferError::RequestOutOfRange { seq }),
                )
                &&& a == MissionAction::Wait
            },
    {
        if self.cancel_requested {
            self.outcome = Some(TransferOutcome::Cancelled);
            return MissionAction::Wait;
        }
        if (seq as usize) < self.plan.items.len() {
            let item = self.plan.items[seq as usize];
            self.last_sent = UploadLastSent::Item { seq };
            self.retries = 0;
            if seq + 1 > self.items_sent {
                self.items_sent = seq + 1;
            }
            MissionAction::SendItem { item }
        } else {
            self.outcome = Some(
                TransferOutcome::Failed(TransferError::RequestOutOfRange { seq }),
            );
            MissionAction::Wait
        }
    }

    /// The remote acknowledged the upload: `MISSION_ACCEPTED` completes it,
    /// any other code fails it immediately (an explicit rejection is not
    /// retried). A pending cancellation resolves the transfer instead.
    pub fn on_ack(&mut self, code: u8) -> (a: MissionAction)
        requires
            old(self).wf(),
            old(self).in_flight(),
        ensures
            final(self).wf(),
            final(self).plan() == old(self).plan(),
            final(self).cancel_pending() == old(self).cancel_pending(),
            a == MissionAction::Wait,
            old(self).cancel_pending() ==> final(self).outcome() == Some(
                TransferOutcome::Cancelled,
            ),
            !old(self).cancel_pending() && code == MISSION_ACCEPTED ==> final(self).outcome()
                == Some(TransferOutcome::Success),
            !old(self).cancel_pending() && code != MISSION_ACCEPTED ==> final(self).outcome()
                == Some(TransferOutcome::Failed(TransferError::Nack { code })),
    {
        if self.cancel_requested {
            self.outcome = Some(TransferOutcome::Cancelled);
        } else if code == MISSION_ACCEPTED {
            self.outcome = Some(TransferOutcome::Success);
        } else {
            self.outcome = Some(TransferOutcome::Failed(TransferError::Nack { code }));
        }
        MissionAction::Wait
    }

    /// The fixed per-step timeout elapsed: resend the last request up to
    /// the bounded retry count, then fail the whole transfer. A pending
    /// cancellation resolves the transfer instead — within one timeout
    /// interval of the cancel request.
    pub fn on_timeout(&mut self) -> (a: MissionAction)
        requires
            old(self).wf(),
            old(self).in_flight(),
        ensures
            final(self).wf(),
            final(self).plan() == old(self).plan(),
            final(self).cancel_pending() == old(self).cancel_pending(),
            old(self).cancel_pending() ==> final(self).outcome() == Some(
                TransferOutcome::Cancelled,
            ) && a == MissionAction::Wait,
            !old(self).cancel_pending() && old(self).retries() < MAX_TRANSFER_RETRIES ==> {
                &&& final(self).in_flight()
                &&& final(self).retries() == old(self).retries() + 1
                &&& a == old(self).resend_action()
                &&& final(self).last_sent_item() == old(self).last_sent_item()
                &&& final(self).items_sent() == old(self).items_sent()
            },
            !old(self).cancel_pending() && old(self).retries() >= MAX_TRANSFER_RETRIES ==> {
                &&& final(self).outcome() == Some(
                    TransferOutcome::Failed(TransferError::Timeout),
                )
                &&& a == MissionAction::Wait
            },
    {
        if self.cancel_requested {
            self.outcome = Some(TransferOutcome::Cancelled);
            return MissionAction::Wait;
        }
        if self.retries < MAX_TRANSFER_RETRIES {
            self.retries = self.retries + 1;
            match self.last_sent {
                UploadLastSent::Count => MissionAction::SendCount {
                    mission_type: self.plan.mission_type,
                    count: self.plan.items.len() as u16,
                },
                UploadLastSent::Item { seq } => MissionAction::SendItem {
                    item: self.plan.items[seq as usize],
                },
            }
        } else {
            self.outcome = Some(TransferOutcome::Failed(TransferError::Timeout));
            MissionAction::Wait
        }
    }

    /// Requests cooperative cancellation: the flag is observed at the next
    /// event or timeout, which then resolves the transfer with `Cancelled`
    /// instead of continuing. Never tears down the connection.
    pub fn cancel_transfer(&mut self)
        ensures
            final(self).cancel_pending(),
            final(self).plan() == old(self).plan(),
            final(self).outcome() == old(self).outcome(),
            final(self).items_sent() == old(self).items_sent(),
            final(self).retries() == old(self).retries(),
            final(self).wf() == old(self).wf(),
            final(self).resend_action() == old(self).resend_action(),
    {
        self.cancel_requested = true;
    }

    /// Progress for publication: items sent over plan length.
    pub fn progress(&self) -> (r: TransferProgress)
        ensures
            r == self.spec_progress(),
    {
        TransferProgress {
            phase: match self.outcome {
                Some(_) => TransferPhase::Idle,
                None => match self.last_sent {
                    UploadLastSent::Count => TransferPhase::RequestingCount,
                    UploadLastSent::Item { .. } => TransferPhase::ExchangingItems,
                },
            },
            current: self.items_sent as u32,
            total: self.plan.items.len() as u32,
        }
    }

    /// The terminal outcome, once one exists.
    pub fn outcome_now(&self) -> (r: Option<TransferOutcome>)
        ensures
            r == self.outcome(),
    {
        self.outcome
    }
}

/// Download state machine: requests the item count, then each item in
/// ascending index order, and acknowledges completion. Fails on an
/// out-of-order or duplicate index from the remote.
pub struct MissionDownload {
    mission_type: MissionType,
    items: Vec<MissionItem>,
    expected: Option<u16>,
    retries: u32,
    cancel_requested: bool,
    outcome: Option<TransferOutcome>,
}

impl MissionDownload {
    pub closed spec fn mission_type(self) -> MissionType {
        self.mission_type
    }

    /// The items collected so far, in index order.
    pub closed spec fn items(self) -> Seq<MissionItem> {
        self.items@
    }

    /// The remote's announced item count, once received.
    pub closed spec fn expected(self) -> Option<u16> {
        self.expected
    }

    pub closed spec fn outcome(self) -> Option<TransferOutcome> {
        self.outcome
    }

    pub open spec fn in_flight(self) -> bool {
        self.outcome() is None
    }

    pub closed spec fn cancel_pending(self) -> bool {
        self.cancel_requested
    }

    pub closed spec fn retries(self) -> u32 {
        self.retries
    }

    /// What a timeout would resend now: the list request until the count
    /// arrives, the request for the next missing item afterwards.
    pub open spec fn resend_action(self) -> MissionAction {
        match self.expected() {
            Option::None => MissionAction::SendRequestList { mission_type: self.mission_type() },
            Option::Some(_) => MissionAction::SendRequest {
                mission_type: self.mission_type(),
                seq: self.items().len() as u16,
            },
        }
    }

    pub closed spec fn wf(self) -> bool {
        &&& forall|i: int| 0 <= i < self.items@.len() ==> (#[trigger] self.items@[i]).seq == i
        &&& (self.expected matches Some(n) ==> self.items@.len() <= n as int)
        &&& (self.expected is None ==> self.items@.len() == 0)
        &&& self.retries <= MAX_TRANSFER_RETRIES
        &&& (self.in_flight() ==> (match self.expected {
            Option::Some(n) => self.items@.len() < n as int,
            Option::None => true,
        }))
    }

    /// Progress as published after every step: `current` counts the items
    /// received, `total` the remote's announced count (0 until known).
    pub open spec fn spec_progress(self) -> TransferProgress {
        TransferProgress {
            phase: if self.outcome() is Some {
                TransferPhase::Idle
            } else if self.expected() is None {
                TransferPhase::RequestingCount
            } else {
                TransferPhase::ExchangingItems
            },
            current: self.items().len() as u32,
            total: match self.expected() {
                Option::None => 0u32,
                Option::Some(n) => n as u32,
            },
        }
    }

    /// Begins a download by requesting the remote's item count.
    pub fn start(mission_type: MissionType) -> (r: (MissionDownload, MissionAction))
        ensures
            r.0.wf(),
            r.0.mission_type() == mission_type,
            r.0.in_flight(),
            !r.0.cancel_pending(),
            r.0.items() == (Seq::<MissionItem>::empty()),
            r.0.expected() == (Option::<u16>::None),
            r.0.retries() == 0,
            r.1 == (MissionAction::SendRequestList { mission_type }),
            r.0.resend_action() == r.1,
    {
        let e = MissionDownload {
            mission_type,
            items: Vec::new(),
            expected: None,
            retries: 0,
            cancel_requested: false,
            outcome: None,
        };
        proof {
            assert(e.items@ =~= Seq::<MissionItem>::empty());
        }
        (e, MissionAction::SendRequestList { mission_type })
    }

    /// The remote announced its item count: an empty store completes the
    /// download at once, otherwise the first item is requested. A repeated
    /// announcement mid-stream is ignored. A pending cancellation resolves
    /// the transfer instead.
    pub fn on_count(&mut self, count: u16) -> (a: MissionAction)
        requires
            old(self).wf(),
            old(self).in_flight(),
        ensures
            final(self).wf(),
            final(self).mission_type() == old(self).mission_type(),
            final(self).items() == old(self).items(),
            final(self).cancel_pending() == old(self).cancel_pending(),
            old(self).cancel_pending() ==> final(self).outcome() == Some(
                TransferOutcome::Cancelled,
            ) && a == MissionAction::Wait,
            !old(self).cancel_pending() && old(self).expected() is Some ==> *final(self) == *old(
                self,
            ) && a == MissionAction::Wait,
            !old(self).cancel_pending() && old(self).expected() is None && count == 0 ==> {
                &&& final(self).outcome() == Some(TransferOutcome::Success)
                &&& a == MissionAction::SendAck {
                    mission_type: old(self).mission_type(),
                    code: MISSION_ACCEPTED,
                }
            },
            !old(self).cancel_pending() && old(self).expected() is None && count > 0 ==> {
                &&& final(self).in_flight()
                &&& final(self).expected() == Some(count)
                &&& final(self).retries() == 0
                &&& a == MissionAction::SendRequest {
                    mission_type: old(self).mission_type(),
                    seq: 0,
                }
                &&& final(self).resend_action() == a
            },
    {
        if self.cancel_requested {
            self.outcome = Some(TransferOutcome::Cancelled);
            return MissionAction::Wait;
        }
        match self.expected {
            Some(_) => MissionAction::Wait,
            None => {
                if count == 0 {
                    self.outcome = Some(TransferOutcome::Success);
                    MissionAction::SendAck {
                        mission_type: self.mission_type,
                        code: MISSION_ACCEPTED,
                    }
                } else {
                    self.expected = Some(count);
                    self.retries = 0;
                    MissionAction::SendRequest { mission_type: self.mission_type, seq: 0 }
                }
            },
        }
    }

    /// The remote sent one item: exactly the next index is accepted and the
    /// following one requested (or the download completed and
    /// acknowledged); any other index fails the transfer. An item before
    /// the count announcement is ignored. A pending cancellation resolves
    /// the transfer instead.
    pub fn on_item(&mut self, item: MissionItem) -> (a: MissionAction)
        requires
            old(self).wf(),
            old(self).in_flight(),
        ensures
            final(self).wf(),
            final(self).mission_type() == old(self).mission_type(),
            final(self).cancel_pending() == old(self).cancel_pending(),
            old(self).cancel_pending() ==> final(self).outcome() == Some(
                TransferOutcome::Cancelled,
            ) && a == MissionAction::Wait && final(self).items() == old(self).items(),
            !old(self).cancel_pending() && old(self).expected() is None ==> *final(self) == *old(
                self,
            ) && a == MissionAction::Wait,
            !old(self).cancel_pending() && old(self).expected() is Some && item.seq as int
                == old(self).items().len() ==> (match old(self).expected() {
                Option::Some(n) => {
                    &&& final(self).items() == old(self).items().push(item)
                    &&& final(self).retries() == 0
                    &&& (final(self).items().len() == n as int ==> final(self).outcome() == Some(
                        TransferOutcome::Success,
                    ) && a == MissionAction::SendAck {
                        mission_type: old(self).mission_type(),
                        code: MISSION_ACCEPTED,
                    })
                    &&& (final(self).items().len() < n as int ==> final(self).in_flight() && a
                        == MissionAction::SendRequest {
                        mission_type: old(self).mission_type(),
                        seq: (old(self).items().len() + 1) as u16,
                    } && final(self).resend_action() == a)
                },
                Option::None => true,
            }),
            !old(self).cancel_pending() && old(self).expected() is Some && item.seq as int
                != old(self).items().len() ==> {
                &&& final(self).outcome() == Some(
                    TransferOutcome::Failed(
                        TransferError::UnexpectedItem {
                            expected: old(self).items().len() as u16,
                            found: item.seq,
                        },
                    ),
                )
                &&& a == MissionAction::Wait
                &&& final(self).items() == old(self).items()
            },
    {
        if self.cancel_requested {
            self.outcome = Some(TransferOutcome::Cancelled);
            return MissionAction::Wait;
        }
        match self.expected {
            None => MissionAction::Wait,
            Some(n) => {
                let next = self.items.len() as u16;
                if item.seq == next {
                    self.items.push(item);
                    self.retries = 0;
                    if self.items.len() == n as usize {
                        self.outcome = Some(TransferOutcome::Success);
                        MissionAction::SendAck {
                            mission_type: self.mission_type,
                            code: MISSION_ACCEPTED,
                        }
                    } else {
                        MissionAction::SendRequest {
                            mission_type: self.mission_type,
                            seq: next + 1,
                        }
                    }
                } else {
                    self.outcome = Some(
                        TransferOutcome::Failed(
                            TransferError::UnexpectedItem { expected: next, found: item.seq },
                        ),
                    );
                    MissionAction::Wait
                }
            },
        }
    }

    /// The fixed per-step timeout elapsed: resend the outstanding request a
    /// bounded number of times, then fail. A pending cancellation resolves
    /// the transfer instead — within one timeout interval of the request.
    pub fn on_timeout(&mut self) -> (a: MissionAction)
        requires
            old(self).wf(),
            old(self).in_flight(),
        ensures
            final(self).wf(),
            final(self).mission_type() == old(self).mission_type(),
            final(self).items() == old(self).items(),
            final(self).expected() == old(self).expected(),
            final(self).cancel_pending() == old(self).cancel_pending(),
            old(self).cancel_pending() ==> final(self).outcome() == Some(
                TransferOutcome::Cancelled,
            ) && a == MissionAction::Wait,
            !old(self).cancel_pending() && old(self).retries() < MAX_TRANSFER_RETRIES ==> {
                &&& final(self).in_flight()
                &&& final(self).retries() == old(self).retries() + 1
                &&& a == old(self).resend_action()
            },
            !old(self).cancel_pending() && old(self).retries() >= MAX_TRANSFER_RETRIES ==> {
                &&& final(self).outcome() == Some(
                    TransferOutcome::Failed(TransferError::Timeout),
                )
                &&& a == MissionAction::Wait
            },
    {
        if self.cancel_requested {
            self.outcome = Some(TransferOutcome::Cancelled);
            return MissionAction::Wait;
        }
        if self.retries < MAX_TRANSFER_RETRIES {
            self.retries = self.retries + 1;
            match self.expected {
                None => MissionAction::SendRequestList { mission_type: self.mission_type },
                Some(_) => MissionAction::SendRequest {
                    mission_type: self.mission_type,
                    seq: self.items.len() as u16,
                },
            }
        } else {
            self.outcome = Some(TransferOutcome::Failed(TransferError::Timeout));
            MissionAction::Wait
        }
    }

    /// Requests cooperative cancellation; observed at the next event or
    /// timeout.
    pub fn cancel_transfer(&mut self)
        ensures
            final(self).cancel_pending(),
            final(self).mission_type() == old(self).mission_type(),
            final(self).items() == old(self).items(),
            final(self).expected() == old(self).expected(),
            final(self).outcome() == old(self).outcome(),
            final(self).retries() == old(self).retries(),
            final(self).wf() == old(self).wf(),
    {
        self.cancel_requested = true;
    }

    pub fn progress(&self) -> (r: TransferProgress)
        ensures
            r == self.spec_progress(),
    {
        TransferProgress {
            phase: match self.outcome {
                Some(_) => TransferPhase::Idle,
                None => match self.expected {
                    None => TransferPhase::RequestingCount,
                    Some(_) => TransferPhase::ExchangingItems,
                },
            },
            current: self.items.len() as u32,
            total: match self.expected {
                None => 0u32,
                Some(n) => n as u32,
            },
        }
    }

    pub fn outcome_now(&self) -> (r: Option<TransferOutcome>)
        ensures
            r == self.outcome(),
    {
        self.outcome
    }

    /// The downloaded plan, available once the download succeeded. Its
    /// items are exactly those collected, contiguous and zero-based, so a
    /// successful download always yields a well-formed plan.
    pub fn into_plan(self) -> (r: MissionPlan)
        requires
            self.wf(),
            self.outcome() == Some(TransferOutcome::Success),
        ensures
            r.mission_type == self.mission_type(),
            r.items@ == self.items(),
            plan_well_formed(r),
    {
        let r = MissionPlan { mission_type: self.mission_type, items: self.items };
        proof {
            assert(r.items@.len() <= 0xFFFF) by {
                assert(forall|i: int| 0 <= i < r.items@.len() ==> (#[trigger] r.items@[i]).seq
                    == i);
                if r.items@.len() > 0xFFFF {
                    assert(r.items@[0x10000].seq == 0x10000);
                }
            };
        }
        r
    }
}

/// A single request/acknowledgment mission operation: clearing the remote
/// store (equivalent in outcome to uploading an empty plan, but using the
/// protocol's dedicated clear message) or selecting the current item.
#[derive(Clone, Copy, PartialEq, Eq, Structural, Debug)]
pub enum MissionOpKind {
    Clear { mission_type: MissionType },
    SetCurrent { seq: u16 },
}

/// State machine for `MissionOpKind` operations, with the same bounded
/// retry and cooperative cancellation rules as the transfers.
pub struct MissionOp {
    kind: MissionOpKind,
    retries: u32,
    cancel_requested: bool,
    outcome: Option<TransferOutcome>,
}

impl MissionOp {
    pub closed spec fn kind(self) -> MissionOpKind {
        self.kind
    }

    pub closed spec fn outcome(self) -> Option<TransferOutcome> {
        self.outcome
    }

    pub open spec fn in_flight(self) -> bool {
        self.outcome() is None
    }

    pub closed spec fn cancel_pending(self) -> bool {
        self.cancel_requested
    }

    pub closed spec fn retries(self) -> u32 {
        self.retries
    }

    pub closed spec fn wf(self) -> bool {
        self.retries <= MAX_TRANSFER_RETRIES
    }

    /// The request this operation transmits (first, and on every resend):
    /// the dedicated clear-all message for a clear, the set-current
    /// request for an item selection.
    pub open spec fn resend_action(self) -> MissionAction {
        match self.kind() {
            MissionOpKind::Clear { mission_type } => MissionAction::SendClearAll { mission_type },
            MissionOpKind::SetCurrent { seq } => MissionAction::SendSetCurrent { seq },
        }
    }

    /// Begins the operation and returns the request to transmit.
    pub fn start(kind: MissionOpKind) -> (r: (MissionOp, MissionAction))
        ensures
            r.0.wf(),
            r.0.kind() == kind,
            r.0.in_flight(),
            !r.0.cancel_pending(),
            r.0.retries() == 0,
            r.1 == r.0.resend_action(),
    {
        let e = MissionOp { kind, retries: 0, cancel_requested: false, outcome: None };
        let a = match kind {
            MissionOpKind::Clear { mission_type } => MissionAction::SendClearAll { mission_type },
            MissionOpKind::SetCurrent { seq } => MissionAction::SendSetCurrent { seq },
        };
        (e, a)
    }

    /// The remote acknowledged: `MISSION_ACCEPTED` succeeds, any other code
    /// is an explicit rejection and fails immediately.
    pub fn on_ack(&mut self, code: u8) -> (a: MissionAction)
        requires
            old(self).wf(),
            old(self).in_flight(),
        ensures
            final(self).wf(),
            final(self).kind() == old(self).kind(),
            final(self).cancel_pending() == old(self).cancel_pending(),
            a == MissionAction::Wait,
            old(self).cancel_pending() ==> final(self).outcome() == Some(
                TransferOutcome::Cancelled,
            ),
            !old(self).cancel_pending() && code == MISSION_ACCEPTED ==> final(self).outcome()
                == Some(TransferOutcome::Success),
            !old(self).cancel_pending() && code != MISSION_ACCEPTED ==> final(self).outcome()
                == Some(TransferOutcome::Failed(TransferError::Nack { code })),
    {
        if self.cancel_requested {
            self.outcome = Some(TransferOutcome::Cancelled);
        } else if code == MISSION_ACCEPTED {
            self.outcome = Some(TransferOutcome::Success);
        } else {
            self.outcome = Some(TransferOutcome::Failed(TransferError::Nack { code }));
        }
        MissionAction::Wait
    }

    /// The remote reported its current item: acknowledges a `SetCurrent`
    /// operation whose index now matches; anything else is ignored.
    pub fn on_current(&mut self, seq: u16) -> (a: MissionAction)
        requires
            old(self).wf(),
            old(self).in_flight(),
        ensures
            final(self).wf(),
            final(self).kind() == old(self).kind(),
            final(self).cancel_pending() == old(self).cancel_pending(),
            a == MissionAction::Wait,
            old(self).cancel_pending() ==> final(self).outcome() == Some(
                TransferOutcome::Cancelled,
            ),
            !old(self).cancel_pending() && old(self).kind() == (MissionOpKind::SetCurrent {
                seq,
            }) ==> final(self).outcome() == Some(TransferOutcome::Success),
            !old(self).cancel_pending() && old(self).kind() != (MissionOpKind::SetCurrent {
                seq,
            }) ==> *final(self) == *old(self),
    {
        if self.cancel_requested {
            self.outcome = Some(TransferOutcome::Cancelled);
            return MissionAction::Wait;
        }
        match self.kind {
            MissionOpKind::SetCurrent { seq: want } => {
                if want == seq {
                    self.outcome = Some(TransferOutcome::Success);
                }
            },
            MissionOpKind::Clear { .. } => {},
        }
        MissionAction::Wait
    }

    /// The fixed timeout elapsed: bounded resends, then failure; a pending
    /// cancellation resolves the operation instead.
    pub fn on_timeout(&mut self) -> (a: MissionAction)
        requires
            old(self).wf(),
            old(self).in_flight(),
        ensures
            final(self).wf(),
            final(self).kind() == old(self).kind(),
            final(self).cancel_pending() == old(self).cancel_pending(),
            old(self).cancel_pending() ==> final(self).outcome() == Some(
                TransferOutcome::Cancelled,
            ) && a == MissionAction::Wait,
            !old(self).cancel_pending() && old(self).retries() < MAX_TRANSFER_RETRIES ==> {
                &&& final(self).in_flight()
                &&& final(self).retries() == old(self).retries() + 1
                &&& a == old(self).resend_action()
            },
            !old(self).cancel_pending() && old(self).retries() >= MAX_TRANSFER_RETRIES ==> {
                &&& final(self).outcome() == Some(
                    TransferOutcome::Failed(TransferError::Timeout),
                )
                &&& a == MissionAction::Wait
            },
    {
        if self.cancel_requested {
            self.outcome = Some(TransferOutcome::Cancelled);
            return MissionAction::Wait;
        }
        if self.retries < MAX_TRANSFER_RETRIES {
            self.retries = self.retries + 1;
            match self.kind {
                MissionOpKind::Clear { mission_type } => MissionAction::SendClearAll {
                    mission_type,
                },
                MissionOpKind::SetCurrent { seq } => MissionAction::SendSetCurrent { seq },
            }
        } else {
            self.outcome = Some(TransferOutcome::Failed(TransferError::Timeout));
            MissionAction::Wait
        }
    }

    /// Requests cooperative cancellation; observed at the next event or
    /// timeout.
    pub fn cancel_transfer(&mut self)
        ensures
            final(self).cancel_pending(),
            final(self).kind() == old(self).kind(),
            final(self).outcome() == old(self).outcome(),
            final(self).retries() == old(self).retries(),
            final(self).wf() == old(self).wf(),
    {
        self.cancel_requested = true;
    }

    pub fn outcome_now(&self) -> (r: Option<TransferOutcome>)
        ensures
            r == self.outcome(),
    {
        self.outcome
    }
}

} // verus!
