//! The composition root: owns the active framed connection and the set of
//! latest-value slots, routes received messages to the right slot or
//! protocol, and builds the one-shot command operations (arm, disarm, mode
//! change, takeoff, guided goto, calibration).
//!
//! The caller runs the loops: a background task feeds every received
//! message through [`VehicleCore::handle_inbound`], which updates the
//! relevant slot and classifies protocol messages for forwarding to the
//! active mission or parameter transfer; command operations hand back the
//! message to transmit and are concluded through
//! [`VehicleCore::on_command_ack`] or [`VehicleCore::on_command_timeout`].
//!
//! Values that travel as 32-bit floats on the wire are carried here as
//! IEEE-754 bit patterns; coordinates as degrees times 1e7; altitudes from
//! position reports in millimetres.

use vstd::prelude::*;
use crate::framing::StreamConnection;
use crate::mission::MissionItem;
use crate::mission::TransferProgress;
use crate::params::Param;
use crate::params::ParamProgress;
use crate::params::ParamStore;
use crate::watch::Watchable;
use crate::watch::publish_state;

verus! {

/// Bounded resends of one command awaiting its acknowledgment.
pub const MAX_COMMAND_RETRIES: u32 = 3;

/// Command id: arm or disarm the vehicle.
pub const CMD_COMPONENT_ARM_DISARM: u16 = 400;

/// Command id: take off to an altitude.
pub const CMD_NAV_TAKEOFF: u16 = 22;

/// Command id: reposition to a location (guided goto).
pub const CMD_DO_REPOSITION: u16 = 192;

/// Command id: run a preflight sensor calibration.
pub const CMD_PREFLIGHT_CALIBRATION: u16 = 241;

/// Acknowledgment result of an accepted command.
pub const CMD_RESULT_ACCEPTED: u8 = 0;

/// Bit pattern of 1.0 as a 32-bit float.
pub const F32_ONE_BITS: u32 = 0x3F80_0000;

/// Bit pattern of 0.0 as a 32-bit float.
pub const F32_ZERO_BITS: u32 = 0;

/// Bit pattern of 21196.0, the force-arm/disarm magic parameter value.
pub const ARM_FORCE_MAGIC_BITS: u32 = 0x46A5_9800;

/// Flag bit of a heartbeat's base mode marking the vehicle armed.
pub const BASE_MODE_ARMED_FLAG: u8 = 0x80;

/// Base mode flag enabling platform-specific custom modes.
pub const BASE_MODE_CUSTOM_ENABLED: u8 = 1;

/// State of the link beneath the active connection; only one value is live
/// at a time, held in a latest-value slot.
#[derive(Debug)]
pub enum LinkState {
    Disconnected,
    Connecting,
    Connected,
    Reconnecting,
    Failed(String),
}

/// Last-known vehicle flight state, updated from heartbeats.
#[derive(Clone, Copy, PartialEq, Eq, Structural, Debug)]
pub struct VehicleState {
    pub armed: bool,
    pub custom_mode: u32,
    pub system_status: u8,
    pub mav_type: u8,
    pub autopilot: u8,
}

/// Last-known home position.
#[derive(Clone, Copy, PartialEq, Eq, Structural, Debug)]
pub struct HomePosition {
    pub lat_e7: i32,
    pub lon_e7: i32,
    pub alt_mm: i32,
}

/// Last-known telemetry snapshot, merged from position, system-status and
/// flight-display reports as they arrive.
#[derive(Clone, Copy, PartialEq, Eq, Structural, Debug)]
pub struct Telemetry {
    pub lat_e7: i32,
    pub lon_e7: i32,
    pub alt_mm: i32,
    pub relative_alt_mm: i32,
    pub vx_cm_s: i16,
    pub vy_cm_s: i16,
    pub vz_cm_s: i16,
    pub heading_cdeg: u16,
    pub voltage_mv: u16,
    pub current_ca: i16,
    pub battery_remaining_pct: i8,
    pub airspeed_bits: u32,
    pub groundspeed_bits: u32,
    pub climb_bits: u32,
    pub throttle_pct: u16,
}

/// The all-zero telemetry snapshot a fresh connection starts from.
pub open spec fn initial_telemetry() -> Telemetry {
    Telemetry {
        lat_e7: 0,
        lon_e7: 0,
        alt_mm: 0,
        relative_alt_mm: 0,
        vx_cm_s: 0,
        vy_cm_s: 0,
        vz_cm_s: 0,
        heading_cdeg: 0,
        voltage_mv: 0,
        current_ca: 0,
        battery_remaining_pct: 0,
        airspeed_bits: 0,
        groundspeed_bits: 0,
        climb_bits: 0,
        throttle_pct: 0,
    }
}

/// One operator-facing status message from the vehicle.
#[derive(Debug)]
pub struct StatusMessage {
    pub severity: u8,
    pub text: String,
}

/// One selectable flight mode: the platform's custom mode number and its
/// display name.
#[derive(Debug)]
pub struct FlightMode {
    pub custom_mode: u32,
    pub name: String,
}

/// A received message, decoded to the plain values this layer routes.
#[derive(Debug)]
pub enum InboundMsg {
    Heartbeat { custom_mode: u32, base_mode: u8, system_status: u8, mav_type: u8, autopilot: u8 },
    GlobalPosition {
        lat_e7: i32,
        lon_e7: i32,
        alt_mm: i32,
        relative_alt_mm: i32,
        vx_cm_s: i16,
        vy_cm_s: i16,
        vz_cm_s: i16,
        heading_cdeg: u16,
    },
    SysStatus { voltage_mv: u16, current_ca: i16, battery_remaining_pct: i8 },
    VfrHud {
        airspeed_bits: u32,
        groundspeed_bits: u32,
        climb_bits: u32,
        throttle_pct: u16,
    },
    HomePositionMsg { lat_e7: i32, lon_e7: i32, alt_mm: i32 },
    StatusText { severity: u8, text: String },
    CommandAck { command: u16, result: u8 },
    MissionCount { count: u16 },
    MissionRequest { seq: u16 },
    MissionItemMsg { item: MissionItem },
    MissionAck { code: u8 },
    MissionCurrent { seq: u16 },
    ParamValue { param: Param, index: u16, count: u16 },
    Other,
}

/// Where `handle_inbound` routed a message.
#[derive(Clone, Copy, PartialEq, Eq, Structural, Debug)]
pub enum Routed {
    /// A state slot was updated.
    StateUpdated,
    /// A mission-protocol message: forward it to the active transfer.
    MissionProtocol,
    /// A parameter-protocol message: the store was updated; forward it to
    /// the active parameter operation too.
    ParamProtocol,
    /// A command acknowledgment: conclude it with `on_command_ack`.
    CommandReply,
    /// Not routed anywhere.
    Ignored,
}

/// One command message to transmit, with float-typed parameters carried as
/// bit patterns. `Long` carries seven float parameters; `Int` carries four
/// plus a scaled-integer location.
#[derive(Clone, Copy, PartialEq, Eq, Structural, Debug)]
pub enum CommandMessage {
    Long {
        command: u16,
        param1_bits: u32,
        param2_bits: u32,
        param3_bits: u32,
        param4_bits: u32,
        param5_bits: u32,
        param6_bits: u32,
        param7_bits: u32,
    },
    Int {
        command: u16,
        param1_bits: u32,
        param2_bits: u32,
        param3_bits: u32,
        param4_bits: u32,
        x: i32,
        y: i32,
        z_bits: u32,
    },
}

impl CommandMessage {
    /// The command id this message carries.
    pub open spec fn command_id(self) -> u16 {
        match self {
            CommandMessage::Long { command, .. } => command,
            CommandMessage::Int { command, .. } => command,
        }
    }
}

/// What to transmit for a vehicle operation.
#[derive(Clone, Copy, PartialEq, Eq, Structural, Debug)]
pub enum VehicleAction {
    /// A command awaiting an acknowledgment.
    SendCommand(CommandMessage),
    /// A mode-change request; confirmed through the next heartbeat's
    /// custom mode, not through a command acknowledgment.
    SetMode { base_mode: u8, custom_mode: u32 },
}

/// Why an operation could not start.
#[derive(Clone, Copy, PartialEq, Eq, Structural, Debug)]
pub enum CommandError {
    /// Another command is still awaiting its acknowledgment; starting a
    /// new one must fail fast rather than interleave.
    Busy,
}

/// How a received command acknowledgment concluded.
#[derive(Clone, Copy, PartialEq, Eq, Structural, Debug)]
pub enum CommandConclusion {
    /// The pending command was accepted.
    Accepted,
    /// The pending command was rejected with this result code; an explicit
    /// rejection is not retried.
    Rejected { result: u8 },
    /// The acknowledgment did not belong to the pending command.
    Unrelated,
}

/// What a command timeout step decided.
#[derive(Clone, Copy, PartialEq, Eq, Structural, Debug)]
pub enum CommandTimeoutStep {
    /// Retransmit the pending command.
    Resend(CommandMessage),
    /// Retries are exhausted; the operation failed with a timeout and no
    /// command is pending any more.
    GaveUp,
    /// No command was pending.
    NoCommand,
}

/// A command sent and not yet acknowledged.
#[derive(Clone, Copy, PartialEq, Eq, Structural, Debug)]
pub struct PendingCommand {
    pub message: CommandMessage,
    pub retries: u32,
}

/// The composition root: one connection, the latest-value slot set, the
/// parameter store, and at most one command in flight.
pub struct VehicleCore {
    /// The active framed connection; public so the caller's I/O pump can
    /// feed and drain its bridge.
    pub conn: StreamConnection,
    vehicle_state: Watchable<VehicleState>,
    link_state: Watchable<LinkState>,
    telemetry: Watchable<Telemetry>,
    home_position: Watchable<Option<HomePosition>>,
    statustext: Watchable<Option<StatusMessage>>,
    mission_progress: Watchable<Option<TransferProgress>>,
    param_progress: Watchable<ParamProgress>,
    params: ParamStore,
    pending_command: Option<PendingCommand>,
}

impl VehicleCore {
    /// The connection this core owns.
    pub closed spec fn conn_spec(self) -> StreamConnection {
        self.conn
    }

    pub closed spec fn vehicle_state_slot(self) -> Watchable<VehicleState> {
        self.vehicle_state
    }

    pub closed spec fn link_state_slot(self) -> Watchable<LinkState> {
        self.link_state
    }

    pub closed spec fn telemetry_slot(self) -> Watchable<Telemetry> {
        self.telemetry
    }

    pub closed spec fn home_position_slot(self) -> Watchable<Option<HomePosition>> {
        self.home_position
    }

    pub closed spec fn statustext_slot(self) -> Watchable<Option<StatusMessage>> {
        self.statustext
    }

    pub closed spec fn mission_progress_slot(self) -> Watchable<Option<TransferProgress>> {
        self.mission_progress
    }

    pub closed spec fn param_progress_slot(self) -> Watchable<ParamProgress> {
        self.param_progress
    }

    pub closed spec fn params_spec(self) -> ParamStore {
        self.params
    }

    pub closed spec fn pending(self) -> Option<PendingCommand> {
        self.pending_command
    }

    pub closed spec fn wf(self) -> bool {
        &&& self.conn.wf()
        &&& self.params.wf()
        &&& (self.pending_command matches Some(p) ==> p.retries <= MAX_COMMAND_RETRIES)
    }

    /// Machine limit: room left on every slot's version counter.
    pub closed spec fn versions_ok(self) -> bool {
        &&& self.vehicle_state@.version < u64::MAX
        &&& self.link_state@.version < u64::MAX
        &&& self.telemetry@.version < u64::MAX
        &&& self.home_position@.version < u64::MAX
        &&& self.statustext@.version < u64::MAX
        &&& self.mission_progress@.version < u64::MAX
        &&& self.param_progress@.version < u64::MAX
    }

    /// Builds a core around an already-established framed connection; the
    /// link starts `Connected`, every other slot at its blank value.
    pub fn from_connection(conn: StreamConnection) -> (r: VehicleCore)
        requires
            conn.wf(),
        ensures
            r.wf(),
            r.conn_spec() == conn,
            r.link_state_slot()@.value is Connected,
            r.vehicle_state_slot()@.value == (VehicleState {
                armed: false,
                custom_mode: 0,
                system_status: 0,
                mav_type: 0,
                autopilot: 0,
            }),
            r.telemetry_slot()@.value == initial_telemetry(),
            r.home_position_slot()@.value == Option::<HomePosition>::None,
            r.params_spec().entries() == Seq::<Param>::empty(),
            r.pending() == Option::<PendingCommand>::None,
            r.versions_ok(),
    {
        VehicleCore {
            conn,
            vehicle_state: Watchable::new(
                VehicleState {
                    armed: false,
                    custom_mode: 0,
                    system_status: 0,
                    mav_type: 0,
                    autopilot: 0,
                },
            ),
            link_state: Watchable::new(LinkState::Connected),
            telemetry: Watchable::new(
                Telemetry {
                    lat_e7: 0,
                    lon_e7: 0,
                    alt_mm: 0,
                    relative_alt_mm: 0,
                    vx_cm_s: 0,
                    vy_cm_s: 0,
                    vz_cm_s: 0,
                    heading_cdeg: 0,
                    voltage_mv: 0,
                    current_ca: 0,
                    battery_remaining_pct: 0,
                    airspeed_bits: 0,
                    groundspeed_bits: 0,
                    climb_bits: 0,
                    throttle_pct: 0,
                },
            ),
            home_position: Watchable::new(None),
            statustext: Watchable::new(None),
            mission_progress: Watchable::new(None),
            param_progress: Watchable::new(ParamProgress { current: 0, total: 0 }),
            params: ParamStore::new(),
            pending_command: None,
        }
    }

    /// The vehicle-state slot, for subscription.
    pub fn state(&self) -> (r: &Watchable<VehicleState>)
        ensures
            *r == self.vehicle_state_slot(),
    {
        &self.vehicle_state
    }

    /// The link-state slot, for subscription.
    pub fn link_state(&self) -> (r: &Watchable<LinkState>)
        ensures
            *r == self.link_state_slot(),
    {
        &self.link_state
    }

    /// The telemetry slot, for subscription (typically polled at a fixed
    /// rate, tolerating coalescing).
    pub fn telemetry(&self) -> (r: &Watchable<Telemetry>)
        ensures
            *r == self.telemetry_slot(),
    {
        &self.telemetry
    }

    /// The home-position slot, for subscription.
    pub fn home_position(&self) -> (r: &Watchable<Option<HomePosition>>)
        ensures
            *r == self.home_position_slot(),
    {
        &self.home_position
    }

    /// The status-message slot, for subscription.
    pub fn statustext(&self) -> (r: &Watchable<Option<StatusMessage>>)
        ensures
            *r == self.statustext_slot(),
    {
        &self.statustext
    }

    /// The mission-progress slot, for subscription.
    pub fn mission_progress(&self) -> (r: &Watchable<Option<TransferProgress>>)
        ensures
            *r == self.mission_progress_slot(),
    {
        &self.mission_progress
    }

    /// The parameter-progress slot, for subscription.
    pub fn param_progress(&self) -> (r: &Watchable<ParamProgress>)
        ensures
            *r == self.param_progress_slot(),
    {
        &self.param_progress
    }

    /// Whether every slot's publication counter has room left — the
    /// machine limit behind the publishing operations' preconditions,
    /// testable by unverified callers before they publish.
    pub fn versions_have_headroom(&self) -> (r: bool)
        ensures
            r == self.versions_ok(),
    {
        self.vehicle_state.version() < u64::MAX && self.link_state.version() < u64::MAX
            && self.telemetry.version() < u64::MAX && self.home_position.version() < u64::MAX
            && self.statustext.version() < u64::MAX && self.mission_progress.version() < u64::MAX
            && self.param_progress.version() < u64::MAX
    }

    /// The last fully or partially downloaded parameter store.
    pub fn param_store(&self) -> (r: &ParamStore)
        ensures
            *r == self.params_spec(),
    {
        &self.params
    }

    /// Routes one received message: updates the slot it belongs to and
    /// classifies protocol messages for forwarding to the active mission
    /// or parameter operation. Slots not named by the message keep their
    /// state; the parameter store absorbs every parameter value.
    pub fn handle_inbound(&mut self, msg: InboundMsg) -> (r: Routed)
        requires
            old(self).wf(),
            old(self).versions_ok(),
        ensures
            final(self).wf(),
            final(self).conn_spec() == old(self).conn_spec(),
            final(self).pending() == old(self).pending(),
            match msg {
                InboundMsg::Heartbeat { custom_mode, base_mode, system_status, mav_type, autopilot } => {
                    &&& r == Routed::StateUpdated
                    &&& final(self).vehicle_state_slot()@ == publish_state(
                        old(self).vehicle_state_slot()@,
                        VehicleState {
                            armed: (base_mode & BASE_MODE_ARMED_FLAG) != 0,
                            custom_mode,
                            system_status,
                            mav_type,
                            autopilot,
                        },
                    )
                    &&& final(self).telemetry_slot() == old(self).telemetry_slot()
                    &&& final(self).params_spec() == old(self).params_spec()
                },
                InboundMsg::GlobalPosition {
                    lat_e7,
                    lon_e7,
                    alt_mm,
                    relative_alt_mm,
                    vx_cm_s,
                    vy_cm_s,
                    vz_cm_s,
                    heading_cdeg,
                } => {
                    &&& r == Routed::StateUpdated
                    &&& final(self).telemetry_slot()@ == publish_state(
                        old(self).telemetry_slot()@,
                        Telemetry {
                            lat_e7,
                            lon_e7,
                            alt_mm,
                            relative_alt_mm,
                            vx_cm_s,
                            vy_cm_s,
                            vz_cm_s,
                            heading_cdeg,
                            ..old(self).telemetry_slot()@.value
                        },
                    )
                    &&& final(self).vehicle_state_slot() == old(self).vehicle_state_slot()
                    &&& final(self).params_spec() == old(self).params_spec()
                },
                InboundMsg::SysStatus { voltage_mv, current_ca, battery_remaining_pct } => {
                    &&& r == Routed::StateUpdated
                    &&& final(self).telemetry_slot()@ == publish_state(
                        old(self).telemetry_slot()@,
                        Telemetry {
                            voltage_mv,
                            current_ca,
                            battery_remaining_pct,
                            ..old(self).telemetry_slot()@.value
                        },
                    )
                    &&& final(self).params_spec() == old(self).params_spec()
                },
                InboundMsg::VfrHud { airspeed_bits, groundspeed_bits, climb_bits, throttle_pct } => {
                    &&& r == Routed::StateUpdated
                    &&& final(self).telemetry_slot()@ == publish_state(
                        old(self).telemetry_slot()@,
                        Telemetry {
                            airspeed_bits,
                            groundspeed_bits,
                            climb_bits,
                            throttle_pct,
                            ..old(self).telemetry_slot()@.value
                        },
                    )
                    &&& final(self).params_spec() == old(self).params_spec()
                },
                InboundMsg::HomePositionMsg { lat_e7, lon_e7, alt_mm } => {
                    &&& r == Routed::StateUpdated
                    &&& final(self).home_position_slot()@ == publish_state(
                        old(self).home_position_slot()@,
                        Some(HomePosition { lat_e7, lon_e7, alt_mm }),
                    )
                    &&& final(self).params_spec() == old(self).params_spec()
                },
                InboundMsg::StatusText { severity, text } => {
                    &&& r == Routed::StateUpdated
                    &&& final(self).statustext_slot()@.version == old(
                        self,
                    ).statustext_slot()@.version + 1
                    &&& (final(self).statustext_slot()@.value matches Some(m) && m.severity
                        == severity && m.text@ == text@)
                    &&& final(self).params_spec() == old(self).params_spec()
                },
                InboundMsg::CommandAck { .. } => {
                    &&& r == Routed::CommandReply
                    &&& final(self).params_spec() == old(self).params_spec()
                    &&& final(self).telemetry_slot() == old(self).telemetry_slot()
                },
                InboundMsg::MissionCount { .. } | InboundMsg::MissionRequest { .. }
                    | InboundMsg::MissionItemMsg { .. } | InboundMsg::MissionAck { .. }
                    | InboundMsg::MissionCurrent { .. } => {
                    &&& r == Routed::MissionProtocol
                    &&& final(self).params_spec() == old(self).params_spec()
                    &&& final(self).telemetry_slot() == old(self).telemetry_slot()
                },
                InboundMsg::ParamValue { param, index, count } => {
                    &&& r == Routed::ParamProtocol
                    &&& final(self).params_spec().as_map() == old(self).params_spec().as_map().insert(
                        param.name@,
                        (param.value_bits, param.param_type),
                    )
                    &&& final(self).param_progress_slot()@ == publish_state(
                        old(self).param_progress_slot()@,
                        ParamProgress {
                            current: final(self).params_spec().entries().len() as u32,
                            total: count as u32,
                        },
                    )
                    &&& final(self).telemetry_slot() == old(self).telemetry_slot()
                },
                InboundMsg::Other => {
                    &&& r == Routed::Ignored
                    &&& *final(self) == *old(self)
                },
            },
    {
        match msg {
            InboundMsg::Heartbeat { custom_mode, base_mode, system_status, mav_type, autopilot } => {
                self.vehicle_state.publish(
                    VehicleState {
                        armed: (base_mode & BASE_MODE_ARMED_FLAG) != 0,
                        custom_mode,
                        system_status,
                        mav_type,
                        autopilot,
                    },
                );
                Routed::StateUpdated
            },
            InboundMsg::GlobalPosition {
                lat_e7,
                lon_e7,
                alt_mm,
                relative_alt_mm,
                vx_cm_s,
                vy_cm_s,
                vz_cm_s,
                heading_cdeg,
            } => {
                let t = *self.telemetry.current();
                self.telemetry.publish(
                    Telemetry {
                        lat_e7,
                        lon_e7,
                        alt_mm,
                        relative_alt_mm,
                        vx_cm_s,
                        vy_cm_s,
                        vz_cm_s,
                        heading_cdeg,
                        ..t
                    },
                );
                Routed::StateUpdated
            },
            InboundMsg::SysStatus { voltage_mv, current_ca, battery_remaining_pct } => {
                let t = *self.telemetry.current();
                self.telemetry.publish(
                    Telemetry { voltage_mv, current_ca, battery_remaining_pct, ..t },
                );
                Routed::StateUpdated
            },
            InboundMsg::VfrHud { airspeed_bits, groundspeed_bits, climb_bits, throttle_pct } => {
                let t = *self.telemetry.current();
                self.telemetry.publish(
                    Telemetry { airspeed_bits, groundspeed_bits, climb_bits, throttle_pct, ..t },
                );
                Routed::StateUpdated
            },
            InboundMsg::HomePositionMsg { lat_e7, lon_e7, alt_mm } => {
                self.home_position.publish(Some(HomePosition { lat_e7, lon_e7, alt_mm }));
                Routed::StateUpdated
            },
            InboundMsg::StatusText { severity, text } => {
                self.statustext.publish(Some(StatusMessage { severity, text }));
                Routed::StateUpdated
            },
            InboundMsg::CommandAck { .. } => Routed::CommandReply,
            InboundMsg::MissionCount { .. } => Routed::MissionProtocol,
            InboundMsg::MissionRequest { .. } => Routed::MissionProtocol,
            InboundMsg::MissionItemMsg { .. } => Routed::MissionProtocol,
            InboundMsg::MissionAck { .. } => Routed::MissionProtocol,
            InboundMsg::MissionCurrent { .. } => Routed::MissionProtocol,
            InboundMsg::ParamValue { param, index, count } => {
                self.params.upsert(param);
                let current = self.params.len();
                self.param_progress.publish(
                    ParamProgress { current: current as u32, total: count as u32 },
                );
                Routed::ParamProtocol
            },
            InboundMsg::Other => Routed::Ignored,
        }
    }

    /// Publishes mission transfer progress for observers.
    pub fn publish_mission_progress(&mut self, p: Option<TransferProgress>)
        requires
            old(self).versions_ok(),
        ensures
            final(self).mission_progress_slot()@ == publish_state(
                old(self).mission_progress_slot()@,
                p,
            ),
            final(self).conn_spec() == old(self).conn_spec(),
            final(self).params_spec() == old(self).params_spec(),
            final(self).pending() == old(self).pending(),
            final(self).wf() == old(self).wf(),
    {
        self.mission_progress.publish(p);
    }

    /// Publishes parameter progress for observers.
    pub fn publish_param_progress(&mut self, p: ParamProgress)
        requires
            old(self).versions_ok(),
        ensures
            final(self).param_progress_slot()@ == publish_state(
                old(self).param_progress_slot()@,
                p,
            ),
            final(self).conn_spec() == old(self).conn_spec(),
            final(self).params_spec() == old(self).params_spec(),
            final(self).pending() == old(self).pending(),
            final(self).wf() == old(self).wf(),
    {
        self.param_progress.publish(p);
    }

    /// Publishes a link-state transition (driven by connection
    /// establishment outcomes and read/write failures).
    pub fn publish_link_state(&mut self, s: LinkState)
        requires
            old(self).versions_ok(),
        ensures
            final(self).link_state_slot()@ == publish_state(old(self).link_state_slot()@, s),
            final(self).conn_spec() == old(self).conn_spec(),
            final(self).params_spec() == old(self).params_spec(),
            final(self).pending() == old(self).pending(),
            final(self).wf() == old(self).wf(),
    {
        self.link_state.publish(s);
    }

    /// Starts a command operation: records it pending and returns the
    /// message to transmit; fails fast while another command is pending.
    fn begin_command(&mut self, message: CommandMessage) -> (r: Result<VehicleAction, CommandError>)
        requires
            old(self).wf(),
        ensures
            final(self).wf(),
            final(self).conn_spec() == old(self).conn_spec(),
            final(self).params_spec() == old(self).params_spec(),
            old(self).pending() is Some ==> r == Err::<VehicleAction, CommandError>(
                CommandError::Busy,
            ) && *final(self) == *old(self),
            old(self).pending() is None ==> {
                &&& r == Ok::<VehicleAction, CommandError>(VehicleAction::SendCommand(message))
                &&& final(self).pending() == Some(PendingCommand { message, retries: 0 })
            },
    {
        if self.pending_command.is_some() {
            return Err(CommandError::Busy);
        }
        self.pending_command = Some(PendingCommand { message, retries: 0 });
        Ok(VehicleAction::SendCommand(message))
    }

    /// Arms the vehicle (optionally with the force magic value), awaiting
    /// a command acknowledgment.
    pub fn arm(&mut self, force: bool) -> (r: Result<VehicleAction, CommandError>)
        requires
            old(self).wf(),
        ensures
            final(self).wf(),
            final(self).conn_spec() == old(self).conn_spec(),
            old(self).pending() is Some ==> r == Err::<VehicleAction, CommandError>(
                CommandError::Busy,
            ) && *final(self) == *old(self),
            old(self).pending() is None ==> r == Ok::<VehicleAction, CommandError>(
                VehicleAction::SendCommand(arm_command(true, force)),
            ) && final(self).pending() == Some(
                PendingCommand { message: arm_command(true, force), retries: 0 },
            ),
    {
        self.begin_command(arm_message(true, force))
    }

    /// Disarms the vehicle (optionally forced), awaiting a command
    /// acknowledgment.
    pub fn disarm(&mut self, force: bool) -> (r: Result<VehicleAction, CommandError>)
        requires
            old(self).wf(),
        ensures
            final(self).wf(),
            final(self).conn_spec() == old(self).conn_spec(),
            old(self).pending() is Some ==> r == Err::<VehicleAction, CommandError>(
                CommandError::Busy,
            ) && *final(self) == *old(self),
            old(self).pending() is None ==> r == Ok::<VehicleAction, CommandError>(
                VehicleAction::SendCommand(arm_command(false, force)),
            ) && final(self).pending() == Some(
                PendingCommand { message: arm_command(false, force), retries: 0 },
            ),
    {
        self.begin_command(arm_message(false, force))
    }

    /// Requests a flight-mode change. Mode changes travel as a set-mode
    /// message and are confirmed through the next heartbeat's custom mode,
    /// so no command becomes pending.
    pub fn set_mode(&mut self, custom_mode: u32) -> (r: VehicleAction)
        requires
            old(self).wf(),
        ensures
            final(self).wf(),
            *final(self) == *old(self),
            r == (VehicleAction::SetMode {
                base_mode: BASE_MODE_CUSTOM_ENABLED,
                custom_mode,
            }),
    {
        VehicleAction::SetMode { base_mode: BASE_MODE_CUSTOM_ENABLED, custom_mode }
    }

    /// Takes off to the altitude whose 32-bit float bits are given,
    /// awaiting a command acknowledgment.
    pub fn takeoff(&mut self, altitude_bits: u32) -> (r: Result<VehicleAction, CommandError>)
        requires
            old(self).wf(),
        ensures
            final(self).wf(),
            final(self).conn_spec() == old(self).conn_spec(),
            old(self).pending() is Some ==> r == Err::<VehicleAction, CommandError>(
                CommandError::Busy,
            ) && *final(self) == *old(self),
            old(self).pending() is None ==> r == Ok::<VehicleAction, CommandError>(
                VehicleAction::SendCommand(takeoff_command(altitude_bits)),
            ) && final(self).pending() == Some(
                PendingCommand { message: takeoff_command(altitude_bits), retries: 0 },
            ),
    {
        self.begin_command(
            CommandMessage::Long {
                command: CMD_NAV_TAKEOFF,
                param1_bits: F32_ZERO_BITS,
                param2_bits: F32_ZERO_BITS,
                param3_bits: F32_ZERO_BITS,
                param4_bits: F32_ZERO_BITS,
                param5_bits: F32_ZERO_BITS,
                param6_bits: F32_ZERO_BITS,
                param7_bits: altitude_bits,
            },
        )
    }

    /// Guided goto: repositions to the location given as degrees times 1e7
    /// and an altitude bit pattern, awaiting a command acknowledgment.
    pub fn goto(&mut self, lat_e7: i32, lon_e7: i32, alt_bits: u32) -> (r: Result<
        VehicleAction,
        CommandError,
    >)
        requires
            old(self).wf(),
        ensures
            final(self).wf(),
            final(self).conn_spec() == old(self).conn_spec(),
            old(self).pending() is Some ==> r == Err::<VehicleAction, CommandError>(
                CommandError::Busy,
            ) && *final(self) == *old(self),
            old(self).pending() is None ==> r == Ok::<VehicleAction, CommandError>(
                VehicleAction::SendCommand(goto_command(lat_e7, lon_e7, alt_bits)),
            ) && final(self).pending() == Some(
                PendingCommand { message: goto_command(lat_e7, lon_e7, alt_bits), retries: 0 },
            ),
    {
        self.begin_command(
            CommandMessage::Int {
                command: CMD_DO_REPOSITION,
                param1_bits: F32_ZERO_BITS,
                param2_bits: F32_ZERO_BITS,
                param3_bits: F32_ZERO_BITS,
                param4_bits: F32_ZERO_BITS,
                x: lat_e7,
                y: lon_e7,
                z_bits: alt_bits,
            },
        )
    }

    /// Runs a preflight calibration of the selected sensors, awaiting a
    /// command acknowledgment.
    pub fn preflight_calibration(&mut self, gyro: bool, accel: bool, mag: bool) -> (r: Result<
        VehicleAction,
        CommandError,
    >)
        requires
            old(self).wf(),
        ensures
            final(self).wf(),
            final(self).conn_spec() == old(self).conn_spec(),
            old(self).pending() is Some ==> r == Err::<VehicleAction, CommandError>(
                CommandError::Busy,
            ) && *final(self) == *old(self),
            old(self).pending() is None ==> r == Ok::<VehicleAction, CommandError>(
                VehicleAction::SendCommand(calibration_command(gyro, accel, mag)),
            ) && final(self).pending() == Some(
                PendingCommand { message: calibration_command(gyro, accel, mag), retries: 0 },
            ),
    {
        self.begin_command(
            CommandMessage::Long {
                command: CMD_PREFLIGHT_CALIBRATION,
                param1_bits: if gyro {
                    F32_ONE_BITS
                } else {
                    F32_ZERO_BITS
                },
                param2_bits: if mag {
                    F32_ONE_BITS
                } else {
                    F32_ZERO_BITS
                },
                param3_bits: F32_ZERO_BITS,
                param4_bits: F32_ZERO_BITS,
                param5_bits: if accel {
                    F32_ONE_BITS
                } else {
                    F32_ZERO_BITS
                },
                param6_bits: F32_ZERO_BITS,
                param7_bits: F32_ZERO_BITS,
            },
        )
    }

    /// Concludes the pending command from a received acknowledgment: an
    /// acknowledgment of another command id is unrelated and changes
    /// nothing.
    pub fn on_command_ack(&mut self, command: u16, result: u8) -> (r: CommandConclusion)
        requires
            old(self).wf(),
        ensures
            final(self).wf(),
            final(self).conn_spec() == old(self).conn_spec(),
            final(self).params_spec() == old(self).params_spec(),
            match old(self).pending() {
                Option::Some(p) => {
                    &&& (p.message.command_id() == command && result == CMD_RESULT_ACCEPTED ==> r
                        == CommandConclusion::Accepted && final(self).pending() is None)
                    &&& (p.message.command_id() == command && result != CMD_RESULT_ACCEPTED ==> r
                        == (CommandConclusion::Rejected { result }) && final(self).pending()
                        is None)
                    &&& (p.message.command_id() != command ==> r == CommandConclusion::Unrelated
                        && *final(self) == *old(self))
                },
                Option::None => r == CommandConclusion::Unrelated && *final(self) == *old(self),
            },
    {
        match self.pending_command {
            Some(p) => {
                let id = match p.message {
                    CommandMessage::Long { command: c, .. } => c,
                    CommandMessage::Int { command: c, .. } => c,
                };
                if id == command {
                    self.pending_command = None;
                    if result == CMD_RESULT_ACCEPTED {
                        CommandConclusion::Accepted
                    } else {
                        CommandConclusion::Rejected { result }
                    }
                } else {
                    CommandConclusion::Unrelated
                }
            },
            None => CommandConclusion::Unrelated,
        }
    }

    /// The acknowledgment timeout elapsed: retransmit the pending command
    /// a bounded number of times, then give the operation up.
    pub fn on_command_timeout(&mut self) -> (r: CommandTimeoutStep)
        requires
            old(self).wf(),
        ensures
            final(self).wf(),
            final(self).conn_spec() == old(self).conn_spec(),
            final(self).params_spec() == old(self).params_spec(),
            match old(self).pending() {
                Option::Some(p) => {
                    &&& (p.retries < MAX_COMMAND_RETRIES ==> r == CommandTimeoutStep::Resend(
                        p.message,
                    ) && final(self).pending() == Some(
                        PendingCommand { message: p.message, retries: (p.retries + 1) as u32 },
                    ))
                    &&& (p.retries >= MAX_COMMAND_RETRIES ==> r == CommandTimeoutStep::GaveUp
                        && final(self).pending() is None)
                },
                Option::None => r == CommandTimeoutStep::NoCommand && *final(self) == *old(self),
            },
    {
        match self.pending_command {
            Some(p) => {
                if p.retries < MAX_COMMAND_RETRIES {
                    self.pending_command = Some(
                        PendingCommand { message: p.message, retries: p.retries + 1 },
                    );
                    CommandTimeoutStep::Resend(p.message)
                } else {
                    self.pending_command = None;
                    CommandTimeoutStep::GaveUp
                }
            },
            None => CommandTimeoutStep::NoCommand,
        }
    }

    /// Disconnects: closes both sides of the underlying link and publishes
    /// the `Disconnected` link state. Entities owned by this core do not
    /// outlive the connection.
    pub fn disconnect(&mut self)
        requires
            old(self).wf(),
            old(self).versions_ok(),
        ensures
            final(self).wf(),
            final(self).conn_spec().inbound_is_closed(),
            final(self).conn_spec().outbound_is_closed(),
            final(self).link_state_slot()@.version == old(self).link_state_slot()@.version + 1,
            final(self).link_state_slot()@.value is Disconnected,
    {
        self.conn.close_inbound();
        self.conn.close_outbound();
        self.link_state.publish(LinkState::Disconnected);
    }
}

/// The arm/disarm command: parameter one selects arming (1.0) or
/// disarming (0.0); parameter two carries the force magic value when
/// forcing, zero otherwise.
pub open spec fn arm_command(arm: bool, force: bool) -> CommandMessage {
    CommandMessage::Long {
        command: CMD_COMPONENT_ARM_DISARM,
        param1_bits: if arm {
            F32_ONE_BITS
        } else {
            F32_ZERO_BITS
        },
        param2_bits: if force {
            ARM_FORCE_MAGIC_BITS
        } else {
            F32_ZERO_BITS
        },
        param3_bits: F32_ZERO_BITS,
        param4_bits: F32_ZERO_BITS,
        param5_bits: F32_ZERO_BITS,
        param6_bits: F32_ZERO_BITS,
        param7_bits: F32_ZERO_BITS,
    }
}

/// The takeoff command: parameter seven carries the target altitude.
pub open spec fn takeoff_command(altitude_bits: u32) -> CommandMessage {
    CommandMessage::Long {
        command: CMD_NAV_TAKEOFF,
        param1_bits: F32_ZERO_BITS,
        param2_bits: F32_ZERO_BITS,
        param3_bits: F32_ZERO_BITS,
        param4_bits: F32_ZERO_BITS,
        param5_bits: F32_ZERO_BITS,
        param6_bits: F32_ZERO_BITS,
        param7_bits: altitude_bits,
    }
}

/// The guided-goto command: a reposition to the scaled-integer location.
pub open spec fn goto_command(lat_e7: i32, lon_e7: i32, alt_bits: u32) -> CommandMessage {
    CommandMessage::Int {
        command: CMD_DO_REPOSITION,
        param1_bits: F32_ZERO_BITS,
        param2_bits: F32_ZERO_BITS,
        param3_bits: F32_ZERO_BITS,
        param4_bits: F32_ZERO_BITS,
        x: lat_e7,
        y: lon_e7,
        z_bits: alt_bits,
    }
}

/// The preflight-calibration command: parameter one selects the gyroscope,
/// parameter two the magnetometer, parameter five the accelerometer.
pub open spec fn calibration_command(gyro: bool, accel: bool, mag: bool) -> CommandMessage {
    CommandMessage::Long {
        command: CMD_PREFLIGHT_CALIBRATION,
        param1_bits: if gyro {
            F32_ONE_BITS
        } else {
            F32_ZERO_BITS
        },
        param2_bits: if mag {
            F32_ONE_BITS
        } else {
            F32_ZERO_BITS
        },
        param3_bits: F32_ZERO_BITS,
        param4_bits: F32_ZERO_BITS,
        param5_bits: if accel {
            F32_ONE_BITS
        } else {
            F32_ZERO_BITS
        },
        param6_bits: F32_ZERO_BITS,
        param7_bits: F32_ZERO_BITS,
    }
}

/// Builds the arm/disarm message executably.
fn arm_message(arm: bool, force: bool) -> (r: CommandMessage)
    ensures
        r == arm_command(arm, force),
{
    CommandMessage::Long {
        command: CMD_COMPONENT_ARM_DISARM,
        param1_bits: if arm {
            F32_ONE_BITS
        } else {
            F32_ZERO_BITS
        },
        param2_bits: if force {
            ARM_FORCE_MAGIC_BITS
        } else {
            F32_ZERO_BITS
        },
        param3_bits: F32_ZERO_BITS,
        param4_bits: F32_ZERO_BITS,
        param5_bits: F32_ZERO_BITS,
        param6_bits: F32_ZERO_BITS,
        param7_bits: F32_ZERO_BITS,
    }
}

/// The static capability list of selectable flight modes; no I/O.
pub fn available_modes() -> (r: Vec<FlightMode>)
    ensures
        r@.len() == 7,
        r@[0].custom_mode == 0 && r@[0].name@ == "STABILIZE"@,
        r@[1].custom_mode == 2 && r@[1].name@ == "ALT_HOLD"@,
        r@[2].custom_mode == 3 && r@[2].name@ == "AUTO"@,
        r@[3].custom_mode == 4 && r@[3].name@ == "GUIDED"@,
        r@[4].custom_mode == 5 && r@[4].name@ == "LOITER"@,
        r@[5].custom_mode == 6 && r@[5].name@ == "RTL"@,
        r@[6].custom_mode == 9 && r@[6].name@ == "LAND"@,
{
    let mut r: Vec<FlightMode> = Vec::new();
    r.push(FlightMode { custom_mode: 0, name: "STABILIZE".to_owned() });
    r.push(FlightMode { custom_mode: 2, name: "ALT_HOLD".to_owned() });
    r.push(FlightMode { custom_mode: 3, name: "AUTO".to_owned() });
    r.push(FlightMode { custom_mode: 4, name: "GUIDED".to_owned() });
    r.push(FlightMode { custom_mode: 5, name: "LOITER".to_owned() });
    r.push(FlightMode { custom_mode: 6, name: "RTL".to_owned() });
    r.push(FlightMode { custom_mode: 9, name: "LAND".to_owned() });
    r
}

/// Validates a telemetry publication rate and returns the interval between
/// publications: defined exactly for rates from 1 to 20 per second.
pub fn telemetry_interval_ms(rate_hz: u32) -> (r: Option<u64>)
    ensures
        1 <= rate_hz <= 20 <==> r is Some,
        r matches Some(ms) ==> ms == 1000u64 / rate_hz as u64,
{
    if rate_hz == 0 || rate_hz > 20 {
        None
    } else {
        Some(1000 / rate_hz as u64)
    }
}

} // verus!
