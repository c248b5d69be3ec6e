use mavkit::bridge::ByteBridge;
use mavkit::framing::StreamConnection;
use mavkit::params::Param;
use mavkit::vehicle::CommandConclusion;
use mavkit::vehicle::CommandMessage;
use mavkit::vehicle::CommandTimeoutStep;
use mavkit::vehicle::InboundMsg;
use mavkit::vehicle::LinkState;
use mavkit::vehicle::Routed;
use mavkit::vehicle::VehicleAction;
use mavkit::vehicle::VehicleCore;
use mavkit::vehicle::available_modes;
use mavkit::vehicle::telemetry_interval_ms;
use mavkit::watch::Observed;

fn fresh_core() -> VehicleCore {
    VehicleCore::from_connection(StreamConnection::new(ByteBridge::new(16, 16)))
}

#[test]
fn fresh_core_starts_connected_and_blank() {
    let v = fresh_core();
    assert!(matches!(v.link_state().current(), LinkState::Connected));
    assert!(!v.state().current().armed);
    assert_eq!(v.telemetry().current().lat_e7, 0);
    assert!(v.home_position().current().is_none());
    assert_eq!(v.param_store().len(), 0);
}

#[test]
fn heartbeat_updates_vehicle_state() {
    let mut v = fresh_core();
    let mut obs = v.state().subscribe();
    let routed = v.handle_inbound(InboundMsg::Heartbeat {
        custom_mode: 4,
        base_mode: 0x80 | 0x01,
        system_status: 3,
        mav_type: 2,
        autopilot: 3,
    });
    assert_eq!(routed, Routed::StateUpdated);
    match obs.poll(v.state()) {
        Observed::Changed(s) => {
            assert!(s.armed);
            assert_eq!(s.custom_mode, 4);
            assert_eq!(s.system_status, 3);
        },
        _ => panic!("expected a state change"),
    }
}

#[test]
fn telemetry_merges_across_message_kinds() {
    let mut v = fresh_core();
    v.handle_inbound(InboundMsg::GlobalPosition {
        lat_e7: 473_977_420,
        lon_e7: 85_455_940,
        alt_mm: 100_000,
        relative_alt_mm: 50_000,
        vx_cm_s: 10,
        vy_cm_s: -5,
        vz_cm_s: 0,
        heading_cdeg: 9000,
    });
    v.handle_inbound(InboundMsg::SysStatus {
        voltage_mv: 12_600,
        current_ca: 1_500,
        battery_remaining_pct: 88,
    });
    v.handle_inbound(InboundMsg::VfrHud {
        airspeed_bits: 7.5_f32.to_bits(),
        groundspeed_bits: 8.0_f32.to_bits(),
        climb_bits: 1.5_f32.to_bits(),
        throttle_pct: 45,
    });
    let t = v.telemetry().current();
    // Fields from all three reports coexist in the merged snapshot.
    assert_eq!(t.lat_e7, 473_977_420);
    assert_eq!(t.voltage_mv, 12_600);
    assert_eq!(t.battery_remaining_pct, 88);
    assert_eq!(f32::from_bits(t.airspeed_bits), 7.5);
    assert_eq!(t.heading_cdeg, 9000);
}

#[test]
fn param_values_update_store_and_progress() {
    let mut v = fresh_core();
    let routed = v.handle_inbound(InboundMsg::ParamValue {
        param: Param { name: "RTL_ALT".to_string(), value_bits: 30.0_f32.to_bits(), param_type: 9 },
        index: 0,
        count: 2,
    });
    assert_eq!(routed, Routed::ParamProtocol);
    assert_eq!(
        v.param_store().get(&"RTL_ALT".to_string()).unwrap().value_bits,
        30.0_f32.to_bits()
    );
    let p = *v.param_progress().current();
    assert_eq!(p.current, 1);
    assert_eq!(p.total, 2);
}

#[test]
fn mission_messages_route_to_the_transfer() {
    let mut v = fresh_core();
    assert_eq!(v.handle_inbound(InboundMsg::MissionCount { count: 3 }), Routed::MissionProtocol);
    assert_eq!(v.handle_inbound(InboundMsg::MissionRequest { seq: 0 }), Routed::MissionProtocol);
    assert_eq!(v.handle_inbound(InboundMsg::MissionAck { code: 0 }), Routed::MissionProtocol);
    assert_eq!(
        v.handle_inbound(InboundMsg::CommandAck { command: 400, result: 0 }),
        Routed::CommandReply
    );
    assert_eq!(v.handle_inbound(InboundMsg::Other), Routed::Ignored);
}

#[test]
fn arm_builds_the_arm_command_and_blocks_a_second_one() {
    let mut v = fresh_core();
    let action = v.arm(false).expect("no command pending");
    match action {
        VehicleAction::SendCommand(CommandMessage::Long {
            command,
            param1_bits,
            param2_bits,
            ..
        }) => {
            assert_eq!(command, 400);
            assert_eq!(f32::from_bits(param1_bits), 1.0);
            assert_eq!(f32::from_bits(param2_bits), 0.0);
        },
        _ => panic!("expected the arm command"),
    }
    // One command at a time: starting another fails fast.
    assert!(v.disarm(false).is_err());

    // The matching acknowledgment concludes it; then a new one may start.
    assert_eq!(v.on_command_ack(400, 0), CommandConclusion::Accepted);
    assert!(v.disarm(false).is_ok());
}

#[test]
fn force_arm_uses_the_magic_parameter() {
    let mut v = fresh_core();
    match v.arm(true).unwrap() {
        VehicleAction::SendCommand(CommandMessage::Long { param2_bits, .. }) => {
            assert_eq!(f32::from_bits(param2_bits), 21196.0);
        },
        _ => panic!("expected the arm command"),
    }
}

#[test]
fn disarm_zeroes_the_first_parameter() {
    let mut v = fresh_core();
    match v.disarm(false).unwrap() {
        VehicleAction::SendCommand(CommandMessage::Long { command, param1_bits, .. }) => {
            assert_eq!(command, 400);
            assert_eq!(f32::from_bits(param1_bits), 0.0);
        },
        _ => panic!("expected the disarm command"),
    }
}

#[test]
fn rejected_ack_reports_the_result_code() {
    let mut v = fresh_core();
    v.arm(false).unwrap();
    // An unrelated acknowledgment leaves the command pending.
    assert_eq!(v.on_command_ack(22, 0), CommandConclusion::Unrelated);
    assert_eq!(v.on_command_ack(400, 4), CommandConclusion::Rejected { result: 4 });
    // The rejection cleared the pending command.
    assert!(v.arm(false).is_ok());
}

#[test]
fn command_timeout_resends_then_gives_up() {
    let mut v = fresh_core();
    let sent = match v.takeoff(15.0_f32.to_bits()).unwrap() {
        VehicleAction::SendCommand(m) => m,
        _ => panic!("expected a command"),
    };
    for _ in 0..3 {
        assert_eq!(v.on_command_timeout(), CommandTimeoutStep::Resend(sent));
    }
    assert_eq!(v.on_command_timeout(), CommandTimeoutStep::GaveUp);
    assert_eq!(v.on_command_timeout(), CommandTimeoutStep::NoCommand);
}

#[test]
fn takeoff_carries_the_altitude_bits() {
    let mut v = fresh_core();
    match v.takeoff(15.0_f32.to_bits()).unwrap() {
        VehicleAction::SendCommand(CommandMessage::Long { command, param7_bits, .. }) => {
            assert_eq!(command, 22);
            assert_eq!(f32::from_bits(param7_bits), 15.0);
        },
        _ => panic!("expected the takeoff command"),
    }
}

#[test]
fn goto_carries_the_scaled_location() {
    let mut v = fresh_core();
    match v.goto(473_977_420, 85_455_940, 25.0_f32.to_bits()).unwrap() {
        VehicleAction::SendCommand(CommandMessage::Int { command, x, y, z_bits, .. }) => {
            assert_eq!(command, 192);
            assert_eq!(x, 473_977_420);
            assert_eq!(y, 85_455_940);
            assert_eq!(f32::from_bits(z_bits), 25.0);
        },
        _ => panic!("expected the reposition command"),
    }
}

#[test]
fn calibration_selects_the_requested_sensors() {
    let mut v = fresh_core();
    match v.preflight_calibration(true, false, false).unwrap() {
        VehicleAction::SendCommand(CommandMessage::Long {
            command,
            param1_bits,
            param2_bits,
            param5_bits,
            ..
        }) => {
            assert_eq!(command, 241);
            assert_eq!(f32::from_bits(param1_bits), 1.0);
            assert_eq!(f32::from_bits(param2_bits), 0.0);
            assert_eq!(f32::from_bits(param5_bits), 0.0);
        },
        _ => panic!("expected the calibration command"),
    }
}

#[test]
fn set_mode_travels_as_a_set_mode_request() {
    let mut v = fresh_core();
    assert_eq!(
        v.set_mode(4),
        VehicleAction::SetMode { base_mode: 1, custom_mode: 4 }
    );
    // No acknowledgment is awaited, so commands stay available.
    assert!(v.arm(false).is_ok());
}

#[test]
fn available_modes_is_the_static_capability_list() {
    let modes = available_modes();
    assert_eq!(modes.len(), 7);
    assert_eq!(modes[0].name, "STABILIZE");
    assert_eq!(modes[0].custom_mode, 0);
    assert_eq!(modes[3].name, "GUIDED");
    assert_eq!(modes[3].custom_mode, 4);
    assert_eq!(modes[5].name, "RTL");
    assert_eq!(modes[5].custom_mode, 6);
}

#[test]
fn telemetry_rate_bounds_match_the_interval() {
    assert_eq!(telemetry_interval_ms(0), None);
    assert_eq!(telemetry_interval_ms(1), Some(1000));
    assert_eq!(telemetry_interval_ms(5), Some(200));
    assert_eq!(telemetry_interval_ms(20), Some(50));
    assert_eq!(telemetry_interval_ms(21), None);
}

#[test]
fn disconnect_closes_the_link_and_publishes_it() {
    let mut v = fresh_core();
    let mut obs = v.link_state().subscribe();
    v.disconnect();
    match obs.poll(v.link_state()) {
        Observed::Changed(s) => assert!(matches!(s, LinkState::Disconnected)),
        _ => panic!("expected the link state to change"),
    }
}

#[test]
fn status_text_is_published() {
    let mut v = fresh_core();
    let mut obs = v.statustext().subscribe();
    v.handle_inbound(InboundMsg::StatusText { severity: 6, text: "PreArm: ok".to_string() });
    match obs.poll(v.statustext()) {
        Observed::Changed(Some(m)) => {
            assert_eq!(m.severity, 6);
            assert_eq!(m.text, "PreArm: ok");
        },
        _ => panic!("expected a status message"),
    }
}
