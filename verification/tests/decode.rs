use solar_telemetry::decode::{
    apply, apply_decoded, embedded_id, CommandStatus, Decoded, FeedbackStatus, FrameId, KellyFaults,
    KellyMessage, MotorDirection, MotorFeedback, MpptData, MpptMessage, MpptStatus, Reading,
    Telemetry,
};
use solar_telemetry::wire::{CanFrameMsg, EXTENDED_ID_FLAG};

fn reading(value: f32) -> Reading {
    Reading { bits: value.to_bits() }
}

fn nothing() -> Decoded {
    Decoded { kelly: None, mppt: [None, None, None] }
}

fn from_unit(unit: usize, message: MpptMessage) -> Decoded {
    let mut decoded = nothing();
    decoded.mppt[unit] = Some(message);
    decoded
}

fn message1() -> KellyMessage {
    KellyMessage::Message1 {
        speed_rpm: reading(1200.0),
        motor_current: reading(15.5),
        battery_voltage: reading(96.0),
        over_voltage: true,
        low_voltage: false,
        stall: true,
        internal_volts_fault: false,
        over_temperature: true,
        motor_over_temperature: false,
        throttle_error: true,
        hall_throttle_open: false,
        angle_sensor_error: true,
        hall_galvanometer_error: false,
        id_error: true,
    }
}

fn message2(command_status: CommandStatus, feedback_status: FeedbackStatus) -> KellyMessage {
    KellyMessage::Message2 {
        throttle: reading(0.5),
        controller_temperature: reading(40.0),
        motor_temperature: reading(55.0),
        command_status,
        feedback_status,
        brake_switch: true,
        foot_switch: false,
        boost_switch: true,
    }
}

fn status(bits: u32) -> MpptMessage {
    let bit = |i: u32| bits & (1 << i) != 0;
    MpptMessage::Status {
        error_mosfet_overheat: bit(0),
        error_low_array_power: bit(1),
        error_hw_over_voltage: bit(2),
        error_hw_over_current: bit(3),
        error_battery_low: bit(4),
        error_battery_full: bit(5),
        error_12v_undervoltage: bit(6),
        limit_output_voltage_max: bit(7),
        limit_mosfet_temperature: bit(8),
        limit_local_mppt: bit(9),
        limit_input_current_min: bit(10),
        limit_input_current_max: bit(11),
        limit_global_mppt: bit(12),
        limit_duty_cycle_max: bit(13),
        limit_duty_cycle_min: bit(14),
    }
}

fn msg(id: u32, data: &[u8]) -> CanFrameMsg {
    CanFrameMsg { id, data: heapless::Vec::from_slice(data).unwrap(), ts_offset_ms: 0 }
}

#[test]
fn silent_car_has_no_faults() {
    let t = Telemetry::default();
    assert!(!t.any_fault());
    assert!(!t.kelly_faults.any());
    assert_eq!(t.direction, MotorDirection::Neutral);
    assert_eq!(t.feedback, MotorFeedback::Stationary);
    assert_eq!(t.rpm, reading(0.0));
    assert_eq!(t.mppt, [MpptData::default(); 3]);
    assert_eq!(t.mppt[2].status(), MpptStatus::Nominal);
}

#[test]
fn message1_sets_drive_and_faults() {
    let mut t = Telemetry::default();
    t.throttle = reading(0.25);
    assert!(apply_decoded(&mut t, &Decoded { kelly: Some(message1()), ..nothing() }));
    assert_eq!(t.rpm, reading(1200.0));
    assert_eq!(t.motor_current, reading(15.5));
    assert_eq!(t.battery_voltage, reading(96.0));
    assert_eq!(t.throttle, reading(0.25));
    let expected = KellyFaults {
        over_voltage: true,
        stall: true,
        controller_over_temp: true,
        throttle_error: true,
        angle_sensor: true,
        id_error: true,
        ..KellyFaults::default()
    };
    assert_eq!(t.kelly_faults, expected);
    assert!(t.any_fault());
}

#[test]
fn message2_sets_controls() {
    for (command, direction) in [
        (CommandStatus::Neutral, MotorDirection::Neutral),
        (CommandStatus::Forward, MotorDirection::Forward),
        (CommandStatus::Backward, MotorDirection::Reverse),
        (CommandStatus::Other, MotorDirection::Unknown),
    ] {
        for (status, feedback) in [
            (FeedbackStatus::Stationary, MotorFeedback::Stationary),
            (FeedbackStatus::Forward, MotorFeedback::Forward),
            (FeedbackStatus::Backward, MotorFeedback::Backward),
            (FeedbackStatus::Other, MotorFeedback::Unknown),
        ] {
            let mut t = Telemetry::default();
            t.rpm = reading(9.0);
            let decoded = Decoded { kelly: Some(message2(command, status)), ..nothing() };
            assert!(apply_decoded(&mut t, &decoded));
            let expected = Telemetry {
                rpm: reading(9.0),
                throttle: reading(0.5),
                controller_temp: reading(40.0),
                motor_temp: reading(55.0),
                direction,
                feedback,
                brake: true,
                foot_sw: false,
                boost_sw: true,
                ..Telemetry::default()
            };
            assert_eq!(t, expected);
        }
    }
}

#[test]
fn unit_messages_reach_their_unit() {
    for unit in 0..3 {
        let mut t = Telemetry::default();
        let input = MpptMessage::PowerInput {
            input_voltage: reading(50.0),
            input_current: reading(4.0),
        };
        let output = MpptMessage::PowerOutput {
            output_voltage: reading(97.0),
            output_current: reading(2.0),
        };
        let temperature = MpptMessage::Temperature { mosfet_temperature: reading(61.0) };
        for message in [input, output, temperature, MpptMessage::Other] {
            assert!(apply_decoded(&mut t, &from_unit(unit, message)));
        }
        let mut expected = Telemetry::default();
        expected.mppt[unit] = MpptData {
            input_voltage: reading(50.0),
            input_current: reading(4.0),
            output_voltage: reading(97.0),
            output_current: reading(2.0),
            mosfet_temp: reading(61.0),
            ..MpptData::default()
        };
        assert_eq!(t, expected);
    }
}

#[test]
fn status_bits_become_flags() {
    for i in 0..15u32 {
        let mut t = Telemetry::default();
        assert!(apply_decoded(&mut t, &from_unit(1, status(1 << i))));
        assert_eq!(t.mppt[1].fault, i < 6);
        assert_eq!(t.mppt[1].aux_fault, i == 6);
        assert_eq!(t.mppt[1].limiting, i > 6);
        assert_eq!(t.any_fault(), i <= 6);
        let expected = if i <= 6 { MpptStatus::Fault } else { MpptStatus::Limiting };
        assert_eq!(t.mppt[1].status(), expected);
        assert!(apply_decoded(&mut t, &from_unit(1, status(0))));
        assert_eq!(t, Telemetry::default());
    }
    // A fault outweighs limiting.
    let mut t = Telemetry::default();
    apply_decoded(&mut t, &from_unit(0, status(0b1000_0001)));
    assert_eq!(t.mppt[0].status(), MpptStatus::Fault);
}

#[test]
fn first_decoder_that_knows_a_frame_wins() {
    let mut t = Telemetry::default();
    let decoded = Decoded { kelly: Some(message1()), mppt: [Some(status(1)); 3] };
    assert!(apply_decoded(&mut t, &decoded));
    assert_eq!(t.rpm, reading(1200.0));
    assert_eq!(t.mppt, [MpptData::default(); 3]);

    let mut t = Telemetry::default();
    let decoded = Decoded { kelly: None, mppt: [None, Some(status(1)), Some(status(1))] };
    assert!(apply_decoded(&mut t, &decoded));
    assert!(t.mppt[1].fault);
    assert!(!t.mppt[2].fault);
}

#[test]
fn repeated_frames_change_nothing() {
    for decoded in [
        Decoded { kelly: Some(message1()), ..nothing() },
        from_unit(2, status(0x7FFF)),
        nothing(),
    ] {
        let mut t = Telemetry::default();
        apply_decoded(&mut t, &decoded);
        let once = t;
        apply_decoded(&mut t, &decoded);
        assert_eq!(t, once);
    }
}

fn kelly(message: KellyMessage) -> Decoded {
    Decoded { kelly: Some(message), ..nothing() }
}

/// One frame of each kind from each sender, with the given values.
fn one_of_each_kind(value: f32, bits: u32) -> Vec<Decoded> {
    let mut first = message1();
    if let KellyMessage::Message1 { speed_rpm, stall, .. } = &mut first {
        *speed_rpm = reading(value);
        *stall = bits != 0;
    }
    let mut second = message2(CommandStatus::Forward, FeedbackStatus::Forward);
    if let KellyMessage::Message2 { throttle, brake_switch, .. } = &mut second {
        *throttle = reading(value);
        *brake_switch = bits != 0;
    }
    let mut all = vec![kelly(first), kelly(second)];
    for unit in 0..3 {
        let (v, w) = (reading(value), reading(value + 1.0));
        all.push(from_unit(unit, MpptMessage::PowerInput { input_voltage: v, input_current: w }));
        all.push(from_unit(unit, MpptMessage::PowerOutput { output_voltage: v, output_current: w }));
        all.push(from_unit(unit, MpptMessage::Temperature { mosfet_temperature: v }));
        all.push(from_unit(unit, status(bits)));
        all.push(from_unit(unit, MpptMessage::Other));
    }
    all
}

fn after(frames: &[Decoded]) -> Telemetry {
    let mut t = Telemetry::default();
    for frame in frames {
        apply_decoded(&mut t, frame);
    }
    t
}

#[test]
fn independent_messages_can_be_swapped() {
    let all = one_of_each_kind(3.0, 0x41);
    for (i, a) in all.iter().enumerate() {
        for b in &all[i + 1..] {
            assert_eq!(after(&[*a, *b]), after(&[*b, *a]));
        }
    }
}

#[test]
fn last_message_of_a_kind_wins() {
    let old = one_of_each_kind(3.0, 0x7FFF);
    let new = one_of_each_kind(8.0, 0);
    for (a, b) in old.iter().zip(&new) {
        assert_eq!(after(&[*a, *b]), after(&[*b]));
        assert_eq!(after(&[*b, *a]), after(&[*a]));
    }
}

#[test]
fn superseded_frames_leave_no_trace() {
    let old = one_of_each_kind(3.0, 0x7FFF);
    let between = one_of_each_kind(5.0, 0x80);
    let new = one_of_each_kind(8.0, 0);
    for (a, b) in old.iter().zip(&new) {
        let mut without = between.clone();
        without.push(*b);
        let mut with = vec![*a];
        with.extend_from_slice(&without);
        assert_eq!(after(&with), after(&without));
    }
}

#[test]
fn ids_out_of_range_are_refused() {
    assert_eq!(embedded_id(&msg(0, &[])), Some(FrameId::Standard(0)));
    assert_eq!(embedded_id(&msg(0x7FF, &[])), Some(FrameId::Standard(0x7FF)));
    assert_eq!(embedded_id(&msg(0x800, &[])), None);
    assert_eq!(embedded_id(&msg(0x1_0001, &[])), None);
    assert_eq!(embedded_id(&msg(EXTENDED_ID_FLAG, &[])), Some(FrameId::Extended(0)));
    assert_eq!(
        embedded_id(&msg(EXTENDED_ID_FLAG | 0x1FFF_FFFF, &[])),
        Some(FrameId::Extended(0x1FFF_FFFF))
    );
    assert_eq!(embedded_id(&msg(EXTENDED_ID_FLAG | 0x2000_0000, &[])), None);
}

#[test]
fn frames_go_through_the_decoder() {
    let decoder = |id: FrameId, data: &[u8]| -> Decoded {
        match id {
            FrameId::Extended(0x0CF1_1E05) if data.len() == 8 => {
                Decoded { kelly: Some(message1()), ..nothing() }
            }
            FrameId::Standard(0x601) => from_unit(0, status(data[0] as u32)),
            _ => nothing(),
        }
    };
    let mut t = Telemetry::default();
    assert!(!apply(&mut t, &msg(0x600, &[1]), &decoder));
    assert!(!apply(&mut t, &msg(0x0CF1_1E05, &[0; 8]), &decoder));
    assert!(!apply(&mut t, &msg(EXTENDED_ID_FLAG | 0x0CF1_1E05, &[0; 7]), &decoder));
    assert_eq!(t, Telemetry::default());
    assert!(apply(&mut t, &msg(EXTENDED_ID_FLAG | 0x0CF1_1E05, &[0; 8]), &decoder));
    assert!(apply(&mut t, &msg(0x601, &[2]), &decoder));
    assert_eq!(t.rpm, reading(1200.0));
    assert!(t.mppt[0].fault);
}

#[test]
fn each_fault_has_its_row() {
    let labels = [
        "Over Voltage",
        "Low Voltage",
        "Stall",
        "Internal Volts",
        "Ctrl Over Temp",
        "Motor Over Temp",
        "Throttle Error",
        "Hall Throttle",
        "Angle Sensor",
        "Hall Galvo",
        "ID Error",
    ];
    for active in 0..11 {
        let mut f = KellyFaults::default();
        match active {
            0 => f.over_voltage = true,
            1 => f.low_voltage = true,
            2 => f.stall = true,
            3 => f.internal_volts = true,
            4 => f.controller_over_temp = true,
            5 => f.motor_over_temp = true,
            6 => f.throttle_error = true,
            7 => f.hall_throttle_open = true,
            8 => f.angle_sensor = true,
            9 => f.hall_galvanometer = true,
            _ => f.id_error = true,
        }
        for (i, row) in f.rows().iter().enumerate() {
            assert_eq!(*row, (labels[i], i == active));
        }
        assert!(f.any());
        let t = Telemetry { kelly_faults: f, ..Telemetry::default() };
        assert!(t.any_fault());
    }
}
