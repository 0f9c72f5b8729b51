//! The dashboard model, and how CAN frames change it.

use vstd::prelude::*;

use crate::outside::{extended_id, payload_as_slice, standard_id};
use crate::wire::{
    can_id_of, is_extended_of, law_wire_id_keeps_id_and_kind, wire_id_spec, CanFrameMsg, FrameView,
};

verus! {

/// A measured value, as the bit pattern of an IEEE 754 single-precision
/// number. Nothing here computes with it.
#[derive(Debug, Clone, Copy, PartialEq, Eq, Structural)]
pub struct Reading {
    pub bits: u32,
}

#[derive(Debug, Clone, Copy, PartialEq, Eq, Structural)]
pub enum MotorDirection {
    Forward,
    Neutral,
    Reverse,
    Unknown,
}

#[derive(Debug, Clone, Copy, PartialEq, Eq, Structural)]
pub enum MotorFeedback {
    Stationary,
    Forward,
    Backward,
    Unknown,
}

/// The faults that the motor controller reports.
#[derive(Debug, Clone, Copy, PartialEq, Eq, Structural)]
pub struct KellyFaults {
    pub over_voltage: bool,
    pub low_voltage: bool,
    pub stall: bool,
    pub internal_volts: bool,
    pub controller_over_temp: bool,
    pub motor_over_temp: bool,
    pub throttle_error: bool,
    pub hall_throttle_open: bool,
    pub angle_sensor: bool,
    pub hall_galvanometer: bool,
    pub id_error: bool,
}

/// What one solar charge controller reports.
#[derive(Debug, Clone, Copy, PartialEq, Eq, Structural)]
pub struct MpptData {
    pub input_voltage: Reading,
    pub input_current: Reading,
    pub output_voltage: Reading,
    pub output_current: Reading,
    pub mosfet_temp: Reading,
    pub fault: bool,
    pub limiting: bool,
    pub aux_fault: bool,
}

#[derive(Debug, Clone, Copy, PartialEq, Eq, Structural)]
pub enum MpptStatus {
    Nominal,
    Limiting,
    Fault,
}

/// The state of the car as last reported.
#[derive(Debug, Clone, Copy, PartialEq, Eq)]
pub struct Telemetry {
    pub rpm: Reading,
    pub battery_voltage: Reading,
    pub motor_current: Reading,
    /// Throttle, from 0 to 1.
    pub throttle: Reading,
    pub controller_temp: Reading,
    pub motor_temp: Reading,
    pub direction: MotorDirection,
    pub feedback: MotorFeedback,
    pub brake: bool,
    pub foot_sw: bool,
    pub boost_sw: bool,
    pub kelly_faults: KellyFaults,
    pub mppt: [MpptData; 3],
}

/// The state of the car as a value.
#[verifier::ext_equal]
pub struct TelemetryView {
    pub rpm: Reading,
    pub battery_voltage: Reading,
    pub motor_current: Reading,
    pub throttle: Reading,
    pub controller_temp: Reading,
    pub motor_temp: Reading,
    pub direction: MotorDirection,
    pub feedback: MotorFeedback,
    pub brake: bool,
    pub foot_sw: bool,
    pub boost_sw: bool,
    pub kelly_faults: KellyFaults,
    pub mppt: Seq<MpptData>,
}

impl View for Telemetry {
    type V = TelemetryView;

    open spec fn view(&self) -> TelemetryView {
        TelemetryView {
            rpm: self.rpm,
            battery_voltage: self.battery_voltage,
            motor_current: self.motor_current,
            throttle: self.throttle,
            controller_temp: self.controller_temp,
            motor_temp: self.motor_temp,
            direction: self.direction,
            feedback: self.feedback,
            brake: self.brake,
            foot_sw: self.foot_sw,
            boost_sw: self.boost_sw,
            kelly_faults: self.kelly_faults,
            mppt: self.mppt@,
        }
    }
}

impl KellyFaults {
    /// Each fault with the label it is shown under, in display order.
    pub open spec fn labelled(self) -> Seq<(Seq<char>, bool)> {
        seq![
            ("Over Voltage"@, self.over_voltage),
            ("Low Voltage"@, self.low_voltage),
            ("Stall"@, self.stall),
            ("Internal Volts"@, self.internal_volts),
            ("Ctrl Over Temp"@, self.controller_over_temp),
            ("Motor Over Temp"@, self.motor_over_temp),
            ("Throttle Error"@, self.throttle_error),
            ("Hall Throttle"@, self.hall_throttle_open),
            ("Angle Sensor"@, self.angle_sensor),
            ("Hall Galvo"@, self.hall_galvanometer),
            ("ID Error"@, self.id_error),
        ]
    }

    /// Whether at least one fault is active.
    pub open spec fn any_active(self) -> bool {
        exists|i: int| 0 <= i < self.labelled().len() && (#[trigger] self.labelled()[i]).1
    }

    /// Each fault with the label it is shown under, in display order.
    pub fn rows(&self) -> (r: [(&'static str, bool); 11])
        ensures
            self.labelled().len() == 11,
            forall|i: int|
                0 <= i < 11 ==> (#[trigger] r@[i]).0@ == self.labelled()[i].0 && r@[i].1
                    == self.labelled()[i].1,
            r@[0].0@ == "Over Voltage"@ && r@[0].1 == self.over_voltage,
            r@[1].0@ == "Low Voltage"@ && r@[1].1 == self.low_voltage,
            r@[2].0@ == "Stall"@ && r@[2].1 == self.stall,
            r@[3].0@ == "Internal Volts"@ && r@[3].1 == self.internal_volts,
            r@[4].0@ == "Ctrl Over Temp"@ && r@[4].1 == self.controller_over_temp,
            r@[5].0@ == "Motor Over Temp"@ && r@[5].1 == self.motor_over_temp,
            r@[6].0@ == "Throttle Error"@ && r@[6].1 == self.throttle_error,
            r@[7].0@ == "Hall Throttle"@ && r@[7].1 == self.hall_throttle_open,
            r@[8].0@ == "Angle Sensor"@ && r@[8].1 == self.angle_sensor,
            r@[9].0@ == "Hall Galvo"@ && r@[9].1 == self.hall_galvanometer,
            r@[10].0@ == "ID Error"@ && r@[10].1 == self.id_error,
    {
        [
            ("Over Voltage", self.over_voltage),
            ("Low Voltage", self.low_voltage),
            ("Stall", self.stall),
            ("Internal Volts", self.internal_volts),
            ("Ctrl Over Temp", self.controller_over_temp),
            ("Motor Over Temp", self.motor_over_temp),
            ("Throttle Error", self.throttle_error),
            ("Hall Throttle", self.hall_throttle_open),
            ("Angle Sensor", self.angle_sensor),
            ("Hall Galvo", self.hall_galvanometer),
            ("ID Error", self.id_error),
        ]
    }

    /// Whether at least one fault is active.
    pub fn any(&self) -> (r: bool)
        ensures
            r == self.any_active(),
            r <==> self.over_voltage || self.low_voltage || self.stall || self.internal_volts
                || self.controller_over_temp || self.motor_over_temp || self.throttle_error
                || self.hall_throttle_open || self.angle_sensor || self.hall_galvanometer
                || self.id_error,
    {
        let rows = self.rows();
        let mut i: usize = 0;
        while i < 11
            invariant
                i <= 11,
                rows@.len() == 11,
                self.labelled().len() == 11,
                forall|j: int| 0 <= j < 11 ==> (#[trigger] rows@[j]).1 == self.labelled()[j].1,
                forall|j: int| 0 <= j < i ==> !(#[trigger] self.labelled()[j]).1,
            decreases 11 - i,
        {
            if rows[i].1 {
                assert(self.labelled()[i as int].1);
                return true;
            }
            assert(rows@[i as int].1 == self.labelled()[i as int].1);
            i += 1;
        }
        false
    }
}

impl MpptData {
    /// A fault outweighs limiting; an undervoltage of the 12 V supply counts
    /// as a fault.
    pub open spec fn status_spec(self) -> MpptStatus {
        if self.fault || self.aux_fault {
            MpptStatus::Fault
        } else if self.limiting {
            MpptStatus::Limiting
        } else {
            MpptStatus::Nominal
        }
    }

    /// What the unit is doing.
    pub fn status(&self) -> (r: MpptStatus)
        ensures
            r == self.status_spec(),
            r == MpptStatus::Fault <==> self.fault || self.aux_fault,
            r == MpptStatus::Limiting <==> self.limiting && !self.fault && !self.aux_fault,
            r == MpptStatus::Nominal <==> !self.limiting && !self.fault && !self.aux_fault,
    {
        if self.fault || self.aux_fault {
            MpptStatus::Fault
        } else if self.limiting {
            MpptStatus::Limiting
        } else {
            MpptStatus::Nominal
        }
    }
}

impl TelemetryView {
    /// Whether the controller or a charge controller reports a fault.
    pub open spec fn any_fault_spec(self) -> bool {
        ||| self.kelly_faults.any_active()
        ||| exists|i: int|
            0 <= i < self.mppt.len() && (#[trigger] self.mppt[i]).status_spec() == MpptStatus::Fault
    }
}

impl Telemetry {
    /// Whether the controller or a charge controller reports a fault.
    pub fn any_fault(&self) -> (r: bool)
        ensures
            r == self@.any_fault_spec(),
            r <==> self.kelly_faults.over_voltage || self.kelly_faults.low_voltage
                || self.kelly_faults.stall || self.kelly_faults.internal_volts
                || self.kelly_faults.controller_over_temp || self.kelly_faults.motor_over_temp
                || self.kelly_faults.throttle_error || self.kelly_faults.hall_throttle_open
                || self.kelly_faults.angle_sensor || self.kelly_faults.hall_galvanometer
                || self.kelly_faults.id_error || self.mppt@[0].fault
                || self.mppt@[0].aux_fault || self.mppt@[1].fault || self.mppt@[1].aux_fault
                || self.mppt@[2].fault || self.mppt@[2].aux_fault,
    {
        if self.kelly_faults.any() {
            return true;
        }
        let mut i: usize = 0;
        while i < 3
            invariant
                i <= 3,
                self@.mppt.len() == 3,
                !self@.kelly_faults.any_active(),
                forall|j: int|
                    0 <= j < i ==> (#[trigger] self@.mppt[j]).status_spec() != MpptStatus::Fault,
            decreases 3 - i,
        {
            if self.mppt[i].fault || self.mppt[i].aux_fault {
                assert(self@.mppt[i as int].status_spec() == MpptStatus::Fault);
                return true;
            }
            i += 1;
        }
        false
    }
}

impl Default for MotorDirection {
    fn default() -> (r: Self)
        ensures
            r == MotorDirection::Neutral,
    {
        MotorDirection::Neutral
    }
}

impl Default for MotorFeedback {
    fn default() -> (r: Self)
        ensures
            r == MotorFeedback::Stationary,
    {
        MotorFeedback::Stationary
    }
}

impl Default for KellyFaults {
    fn default() -> (r: Self)
        ensures
            r == no_faults(),
    {
        KellyFaults {
            over_voltage: false,
            low_voltage: false,
            stall: false,
            internal_volts: false,
            controller_over_temp: false,
            motor_over_temp: false,
            throttle_error: false,
            hall_throttle_open: false,
            angle_sensor: false,
            hall_galvanometer: false,
            id_error: false,
        }
    }
}

/// No fault active.
pub open spec fn no_faults() -> KellyFaults {
    KellyFaults {
        over_voltage: false,
        low_voltage: false,
        stall: false,
        internal_volts: false,
        controller_over_temp: false,
        motor_over_temp: false,
        throttle_error: false,
        hall_throttle_open: false,
        angle_sensor: false,
        hall_galvanometer: false,
        id_error: false,
    }
}

/// The bit pattern of zero.
pub open spec fn zero_reading() -> Reading {
    Reading { bits: 0 }
}

/// A charge controller that has reported nothing.
pub open spec fn silent_mppt() -> MpptData {
    MpptData {
        input_voltage: zero_reading(),
        input_current: zero_reading(),
        output_voltage: zero_reading(),
        output_current: zero_reading(),
        mosfet_temp: zero_reading(),
        fault: false,
        limiting: false,
        aux_fault: false,
    }
}

/// A car that has reported nothing.
pub open spec fn silent_car() -> TelemetryView {
    TelemetryView {
        rpm: zero_reading(),
        battery_voltage: zero_reading(),
        motor_current: zero_reading(),
        throttle: zero_reading(),
        controller_temp: zero_reading(),
        motor_temp: zero_reading(),
        direction: MotorDirection::Neutral,
        feedback: MotorFeedback::Stationary,
        brake: false,
        foot_sw: false,
        boost_sw: false,
        kelly_faults: no_faults(),
        mppt: seq![silent_mppt(), silent_mppt(), silent_mppt()],
    }
}

impl Default for Reading {
    fn default() -> (r: Self)
        ensures
            r == zero_reading(),
    {
        Reading { bits: 0 }
    }
}

impl Default for MpptData {
    fn default() -> (r: Self)
        ensures
            r == silent_mppt(),
    {
        let zero = Reading { bits: 0 };
        MpptData {
            input_voltage: zero,
            input_current: zero,
            output_voltage: zero,
            output_current: zero,
            mosfet_temp: zero,
            fault: false,
            limiting: false,
            aux_fault: false,
        }
    }
}

impl Default for Telemetry {
    fn default() -> (r: Self)
        ensures
            r@ == silent_car(),
    {
        let zero = Reading { bits: 0 };
        let silent = MpptData::default();
        let r = Telemetry {
            rpm: zero,
            battery_voltage: zero,
            motor_current: zero,
            throttle: zero,
            controller_temp: zero,
            motor_temp: zero,
            direction: MotorDirection::Neutral,
            feedback: MotorFeedback::Stationary,
            brake: false,
            foot_sw: false,
            boost_sw: false,
            kelly_faults: KellyFaults::default(),
            mppt: [silent, silent, silent],
        };
        assert(r.mppt@ =~= silent_car().mppt);
        r
    }
}

/// The direction that the motor controller is commanded to.
#[derive(Debug, Clone, Copy, PartialEq, Eq, Structural)]
pub enum CommandStatus {
    Neutral,
    Forward,
    Backward,
    /// A value that the protocol does not define.
    Other,
}

/// The direction that the motor turns in.
#[derive(Debug, Clone, Copy, PartialEq, Eq, Structural)]
pub enum FeedbackStatus {
    Stationary,
    Forward,
    Backward,
    /// A value that the protocol does not define.
    Other,
}

/// A decoded message of the motor controller.
#[derive(Debug, Clone, Copy, PartialEq, Eq, Structural)]
pub enum KellyMessage {
    Message1 {
        speed_rpm: Reading,
        motor_current: Reading,
        battery_voltage: Reading,
        over_voltage: bool,
        low_voltage: bool,
        stall: bool,
        internal_volts_fault: bool,
        over_temperature: bool,
        motor_over_temperature: bool,
        throttle_error: bool,
        hall_throttle_open: bool,
        angle_sensor_error: bool,
        hall_galvanometer_error: bool,
        id_error: bool,
    },
    Message2 {
        /// Throttle signal, scaled to the range from 0 to 1.
        throttle: Reading,
        controller_temperature: Reading,
        motor_temperature: Reading,
        command_status: CommandStatus,
        feedback_status: FeedbackStatus,
        brake_switch: bool,
        foot_switch: bool,
        boost_switch: bool,
    },
}

/// A decoded message of a charge controller.
#[derive(Debug, Clone, Copy, PartialEq, Eq, Structural)]
pub enum MpptMessage {
    PowerInput { input_voltage: Reading, input_current: Reading },
    PowerOutput { output_voltage: Reading, output_current: Reading },
    Temperature { mosfet_temperature: Reading },
    Status {
        error_mosfet_overheat: bool,
        error_low_array_power: bool,
        error_hw_over_voltage: bool,
        error_hw_over_current: bool,
        error_battery_low: bool,
        error_battery_full: bool,
        error_12v_undervoltage: bool,
        limit_output_voltage_max: bool,
        limit_mosfet_temperature: bool,
        limit_local_mppt: bool,
        limit_input_current_min: bool,
        limit_input_current_max: bool,
        limit_global_mppt: bool,
        limit_duty_cycle_max: bool,
        limit_duty_cycle_min: bool,
    },
    /// A message that the dashboard does not show.
    Other,
}

/// What the message decoders make of one frame: the motor controller's, and
/// those of the three charge controllers. `None` means that the frame is not
/// theirs.
#[derive(Debug, Clone, Copy, PartialEq, Eq)]
pub struct Decoded {
    pub kelly: Option<KellyMessage>,
    pub mppt: [Option<MpptMessage>; 3],
}

/// What a message is about: each kind sets values of its own.
pub enum MessageKind {
    KellyMessage1,
    KellyMessage2,
    PowerInput { unit: int },
    PowerOutput { unit: int },
    Temperature { unit: int },
    Status { unit: int },
    Other { unit: int },
}

impl MpptMessage {
    /// The kind of a message of the given unit.
    pub open spec fn kind(self, unit: int) -> MessageKind {
        match self {
            MpptMessage::PowerInput { .. } => MessageKind::PowerInput { unit },
            MpptMessage::PowerOutput { .. } => MessageKind::PowerOutput { unit },
            MpptMessage::Temperature { .. } => MessageKind::Temperature { unit },
            MpptMessage::Status { .. } => MessageKind::Status { unit },
            MpptMessage::Other => MessageKind::Other { unit },
        }
    }
}

impl Decoded {
    /// The kind of the message that counts, if some decoder knew the frame.
    pub open spec fn kind(self) -> Option<MessageKind> {
        match (self.kelly, self.mppt@[0], self.mppt@[1], self.mppt@[2]) {
            (Some(KellyMessage::Message1 { .. }), _, _, _) => Some(MessageKind::KellyMessage1),
            (Some(KellyMessage::Message2 { .. }), _, _, _) => Some(MessageKind::KellyMessage2),
            (None, Some(message), _, _) => Some(message.kind(0)),
            (None, None, Some(message), _) => Some(message.kind(1)),
            (None, None, None, Some(message)) => Some(message.kind(2)),
            (None, None, None, None) => None,
        }
    }
}

impl TelemetryView {
    /// The car after a message of the motor controller.
    pub open spec fn after_kelly(self, message: KellyMessage) -> TelemetryView {
        match message {
            KellyMessage::Message1 {
                speed_rpm,
                motor_current,
                battery_voltage,
                over_voltage,
                low_voltage,
                stall,
                internal_volts_fault,
                over_temperature,
                motor_over_temperature,
                throttle_error,
                hall_throttle_open,
                angle_sensor_error,
                hall_galvanometer_error,
                id_error,
            } => TelemetryView {
                rpm: speed_rpm,
                motor_current,
                battery_voltage,
                kelly_faults: KellyFaults {
                    over_voltage,
                    low_voltage,
                    stall,
                    internal_volts: internal_volts_fault,
                    controller_over_temp: over_temperature,
                    motor_over_temp: motor_over_temperature,
                    throttle_error,
                    hall_throttle_open,
                    angle_sensor: angle_sensor_error,
                    hall_galvanometer: hall_galvanometer_error,
                    id_error,
                },
                ..self
            },
            KellyMessage::Message2 {
                throttle,
                controller_temperature,
                motor_temperature,
                command_status,
                feedback_status,
                brake_switch,
                foot_switch,
                boost_switch,
            } => TelemetryView {
                throttle,
                controller_temp: controller_temperature,
                motor_temp: motor_temperature,
                direction: match command_status {
                    CommandStatus::Backward => MotorDirection::Reverse,
                    CommandStatus::Forward => MotorDirection::Forward,
                    CommandStatus::Neutral => MotorDirection::Neutral,
                    CommandStatus::Other => MotorDirection::Unknown,
                },
                feedback: match feedback_status {
                    FeedbackStatus::Stationary => MotorFeedback::Stationary,
                    FeedbackStatus::Forward => MotorFeedback::Forward,
                    FeedbackStatus::Backward => MotorFeedback::Backward,
                    FeedbackStatus::Other => MotorFeedback::Unknown,
                },
                brake: brake_switch,
                foot_sw: foot_switch,
                boost_sw: boost_switch,
                ..self
            },
        }
    }

    /// The car after a decoded frame, if some decoder knew it. The motor
    /// controller's decoder comes first, then the charge controllers' in
    /// order; only the first that knew the frame counts.
    pub open spec fn after_decoded(self, decoded: Decoded) -> Option<TelemetryView> {
        match (decoded.kelly, decoded.mppt@[0], decoded.mppt@[1], decoded.mppt@[2]) {
            (Some(message), _, _, _) => Some(self.after_kelly(message)),
            (None, Some(message), _, _) => Some(self.after_mppt(0, message)),
            (None, None, Some(message), _) => Some(self.after_mppt(1, message)),
            (None, None, None, Some(message)) => Some(self.after_mppt(2, message)),
            (None, None, None, None) => None,
        }
    }

    /// The car after a decoded frame; one that no decoder knew changes nothing.
    pub open spec fn after_any(self, decoded: Decoded) -> TelemetryView {
        match self.after_decoded(decoded) {
            Some(next) => next,
            None => self,
        }
    }

    /// The car after a number of decoded frames.
    pub open spec fn after_all(self, decoded: Seq<Decoded>) -> TelemetryView
        decreases decoded.len(),
    {
        if decoded.len() == 0 {
            self
        } else {
            self.after_all(decoded.drop_last()).after_any(decoded.last())
        }
    }

    /// The car after a message of one charge controller.
    pub open spec fn after_mppt(self, unit: int, message: MpptMessage) -> TelemetryView {
        TelemetryView { mppt: self.mppt.update(unit, self.mppt[unit].after(message)), ..self }
    }
}

impl MpptData {
    /// The unit after one of its messages.
    pub open spec fn after(self, message: MpptMessage) -> MpptData {
        match message {
            MpptMessage::PowerInput { input_voltage, input_current } => MpptData {
                input_voltage,
                input_current,
                ..self
            },
            MpptMessage::PowerOutput { output_voltage, output_current } => MpptData {
                output_voltage,
                output_current,
                ..self
            },
            MpptMessage::Temperature { mosfet_temperature } => MpptData {
                mosfet_temp: mosfet_temperature,
                ..self
            },
            MpptMessage::Status {
                error_mosfet_overheat,
                error_low_array_power,
                error_hw_over_voltage,
                error_hw_over_current,
                error_battery_low,
                error_battery_full,
                error_12v_undervoltage,
                limit_output_voltage_max,
                limit_mosfet_temperature,
                limit_local_mppt,
                limit_input_current_min,
                limit_input_current_max,
                limit_global_mppt,
                limit_duty_cycle_max,
                limit_duty_cycle_min,
            } => MpptData {
                fault: error_mosfet_overheat || error_low_array_power || error_hw_over_voltage
                    || error_hw_over_current || error_battery_low || error_battery_full,
                aux_fault: error_12v_undervoltage,
                limiting: limit_output_voltage_max || limit_mosfet_temperature || limit_local_mppt
                    || limit_input_current_min || limit_input_current_max || limit_global_mppt
                    || limit_duty_cycle_max || limit_duty_cycle_min,
                ..self
            },
            MpptMessage::Other => self,
        }
    }

    /// Takes in a message of the unit.
    pub fn apply_message(&mut self, message: &MpptMessage)
        ensures
            *final(self) == old(self).after(*message),
            *message matches MpptMessage::PowerInput { input_voltage, input_current } ==> {
                &&& final(self).input_voltage == input_voltage
                &&& final(self).input_current == input_current
                &&& final(self).output_voltage == old(self).output_voltage
                &&& final(self).output_current == old(self).output_current
                &&& final(self).mosfet_temp == old(self).mosfet_temp
                &&& final(self).fault == old(self).fault
                &&& final(self).limiting == old(self).limiting
                &&& final(self).aux_fault == old(self).aux_fault
            },
            *message matches MpptMessage::PowerOutput { output_voltage, output_current } ==> {
                &&& final(self).input_voltage == old(self).input_voltage
                &&& final(self).input_current == old(self).input_current
                &&& final(self).output_voltage == output_voltage
                &&& final(self).output_current == output_current
                &&& final(self).mosfet_temp == old(self).mosfet_temp
                &&& final(self).fault == old(self).fault
                &&& final(self).limiting == old(self).limiting
                &&& final(self).aux_fault == old(self).aux_fault
            },
            *message matches MpptMessage::Temperature { mosfet_temperature } ==> {
                &&& final(self).input_voltage == old(self).input_voltage
                &&& final(self).input_current == old(self).input_current
                &&& final(self).output_voltage == old(self).output_voltage
                &&& final(self).output_current == old(self).output_current
                &&& final(self).mosfet_temp == mosfet_temperature
                &&& final(self).fault == old(self).fault
                &&& final(self).limiting == old(self).limiting
                &&& final(self).aux_fault == old(self).aux_fault
            },
            *message matches MpptMessage::Status {
                error_mosfet_overheat,
                error_low_array_power,
                error_hw_over_voltage,
                error_hw_over_current,
                error_battery_low,
                error_battery_full,
                error_12v_undervoltage,
                limit_output_voltage_max,
                limit_mosfet_temperature,
                limit_local_mppt,
                limit_input_current_min,
                limit_input_current_max,
                limit_global_mppt,
                limit_duty_cycle_max,
                limit_duty_cycle_min,
            } ==> {
                &&& final(self).input_voltage == old(self).input_voltage
                &&& final(self).input_current == old(self).input_current
                &&& final(self).output_voltage == old(self).output_voltage
                &&& final(self).output_current == old(self).output_current
                &&& final(self).mosfet_temp == old(self).mosfet_temp
                &&& final(self).fault <==> (error_mosfet_overheat || error_low_array_power
                    || error_hw_over_voltage || error_hw_over_current || error_battery_low
                    || error_battery_full)
                &&& final(self).limiting <==> (limit_output_voltage_max
                    || limit_mosfet_temperature || limit_local_mppt || limit_input_current_min
                    || limit_input_current_max || limit_global_mppt || limit_duty_cycle_max
                    || limit_duty_cycle_min)
                &&& final(self).aux_fault == error_12v_undervoltage
            },
            *message is Other ==> *final(self) == *old(self),
    {
        match *message {
            MpptMessage::PowerInput { input_voltage, input_current } => {
                self.input_voltage = input_voltage;
                self.input_current = input_current;
            },
            MpptMessage::PowerOutput { output_voltage, output_current } => {
                self.output_voltage = output_voltage;
                self.output_current = output_current;
            },
            MpptMessage::Temperature { mosfet_temperature } => {
                self.mosfet_temp = mosfet_temperature;
            },
            MpptMessage::Status {
                error_mosfet_overheat,
                error_low_array_power,
                error_hw_over_voltage,
                error_hw_over_current,
                error_battery_low,
                error_battery_full,
                error_12v_undervoltage,
                limit_output_voltage_max,
                limit_mosfet_temperature,
                limit_local_mppt,
                limit_input_current_min,
                limit_input_current_max,
                limit_global_mppt,
                limit_duty_cycle_max,
                limit_duty_cycle_min,
            } => {
                self.fault = error_mosfet_overheat || error_low_array_power
                    || error_hw_over_voltage || error_hw_over_current || error_battery_low
                    || error_battery_full;
                self.aux_fault = error_12v_undervoltage;
                self.limiting = limit_output_voltage_max || limit_mosfet_temperature
                    || limit_local_mppt || limit_input_current_min || limit_input_current_max
                    || limit_global_mppt || limit_duty_cycle_max || limit_duty_cycle_min;
            },
            MpptMessage::Other => {},
        }
    }
}

impl Telemetry {
    /// Takes in a message of the motor controller.
    pub fn apply_kelly(&mut self, message: &KellyMessage)
        ensures
            final(self)@ == old(self)@.after_kelly(*message),
            *message matches KellyMessage::Message1 {
                speed_rpm,
                motor_current,
                battery_voltage,
                over_voltage,
                low_voltage,
                stall,
                internal_volts_fault,
                over_temperature,
                motor_over_temperature,
                throttle_error,
                hall_throttle_open,
                angle_sensor_error,
                hall_galvanometer_error,
                id_error,
            } ==> {
                &&& final(self).rpm == speed_rpm
                &&& final(self).battery_voltage == battery_voltage
                &&& final(self).motor_current == motor_current
                &&& final(self).throttle == old(self).throttle
                &&& final(self).controller_temp == old(self).controller_temp
                &&& final(self).motor_temp == old(self).motor_temp
                &&& final(self).direction == old(self).direction
                &&& final(self).feedback == old(self).feedback
                &&& final(self).brake == old(self).brake
                &&& final(self).foot_sw == old(self).foot_sw
                &&& final(self).boost_sw == old(self).boost_sw
                &&& final(self).kelly_faults.over_voltage == over_voltage
                &&& final(self).kelly_faults.low_voltage == low_voltage
                &&& final(self).kelly_faults.stall == stall
                &&& final(self).kelly_faults.internal_volts == internal_volts_fault
                &&& final(self).kelly_faults.controller_over_temp == over_temperature
                &&& final(self).kelly_faults.motor_over_temp == motor_over_temperature
                &&& final(self).kelly_faults.throttle_error == throttle_error
                &&& final(self).kelly_faults.hall_throttle_open == hall_throttle_open
                &&& final(self).kelly_faults.angle_sensor == angle_sensor_error
                &&& final(self).kelly_faults.hall_galvanometer == hall_galvanometer_error
                &&& final(self).kelly_faults.id_error == id_error
                &&& final(self).mppt == old(self).mppt
            },
            *message matches KellyMessage::Message2 {
                throttle,
                controller_temperature,
                motor_temperature,
                command_status,
                feedback_status,
                brake_switch,
                foot_switch,
                boost_switch,
            } ==> {
                &&& final(self).rpm == old(self).rpm
                &&& final(self).battery_voltage == old(self).battery_voltage
                &&& final(self).motor_current == old(self).motor_current
                &&& final(self).throttle == throttle
                &&& final(self).controller_temp == controller_temperature
                &&& final(self).motor_temp == motor_temperature
                &&& command_status == CommandStatus::Forward <==> final(self).direction
                    == MotorDirection::Forward
                &&& command_status == CommandStatus::Neutral <==> final(self).direction
                    == MotorDirection::Neutral
                &&& command_status == CommandStatus::Backward <==> final(self).direction
                    == MotorDirection::Reverse
                &&& command_status == CommandStatus::Other <==> final(self).direction
                    == MotorDirection::Unknown
                &&& feedback_status == FeedbackStatus::Stationary <==> final(self).feedback
                    == MotorFeedback::Stationary
                &&& feedback_status == FeedbackStatus::Forward <==> final(self).feedback
                    == MotorFeedback::Forward
                &&& feedback_status == FeedbackStatus::Backward <==> final(self).feedback
                    == MotorFeedback::Backward
                &&& feedback_status == FeedbackStatus::Other <==> final(self).feedback
                    == MotorFeedback::Unknown
                &&& final(self).brake == brake_switch
                &&& final(self).foot_sw == foot_switch
                &&& final(self).boost_sw == boost_switch
                &&& final(self).kelly_faults == old(self).kelly_faults
                &&& final(self).mppt == old(self).mppt
            },
    {
        match *message {
            KellyMessage::Message1 {
                speed_rpm,
                motor_current,
                battery_voltage,
                over_voltage,
                low_voltage,
                stall,
                internal_volts_fault,
                over_temperature,
                motor_over_temperature,
                throttle_error,
                hall_throttle_open,
                angle_sensor_error,
                hall_galvanometer_error,
                id_error,
            } => {
                self.rpm = speed_rpm;
                self.motor_current = motor_current;
                self.battery_voltage = battery_voltage;
                self.kelly_faults =
                KellyFaults {
                    over_voltage,
                    low_voltage,
                    stall,
                    internal_volts: internal_volts_fault,
                    controller_over_temp: over_temperature,
                    motor_over_temp: motor_over_temperature,
                    throttle_error,
                    hall_throttle_open,
                    angle_sensor: angle_sensor_error,
                    hall_galvanometer: hall_galvanometer_error,
                    id_error,
                };
            },
            KellyMessage::Message2 {
                throttle,
                controller_temperature,
                motor_temperature,
                command_status,
                feedback_status,
                brake_switch,
                foot_switch,
                boost_switch,
            } => {
                self.throttle = throttle;
                self.controller_temp = controller_temperature;
                self.motor_temp = motor_temperature;
                self.direction = match command_status {
                    CommandStatus::Backward => MotorDirection::Reverse,
                    CommandStatus::Forward => MotorDirection::Forward,
                    CommandStatus::Neutral => MotorDirection::Neutral,
                    CommandStatus::Other => MotorDirection::Unknown,
                };
                self.feedback = match feedback_status {
                    FeedbackStatus::Stationary => MotorFeedback::Stationary,
                    FeedbackStatus::Forward => MotorFeedback::Forward,
                    FeedbackStatus::Backward => MotorFeedback::Backward,
                    FeedbackStatus::Other => MotorFeedback::Unknown,
                };
                self.brake = brake_switch;
                self.foot_sw = foot_switch;
                self.boost_sw = boost_switch;
            },
        }
    }

    /// Takes in a message of one charge controller.
    pub fn apply_mppt(&mut self, unit: usize, message: &MpptMessage)
        requires
            unit < 3,
        ensures
            final(self)@ == old(self)@.after_mppt(unit as int, *message),
            final(self).mppt@[unit as int] == old(self).mppt@[unit as int].after(*message),
            forall|i: int|
                0 <= i < 3 && i != unit ==> #[trigger] final(self).mppt@[i] == old(self).mppt@[i],
            final(self).rpm == old(self).rpm,
            final(self).battery_voltage == old(self).battery_voltage,
            final(self).motor_current == old(self).motor_current,
            final(self).throttle == old(self).throttle,
            final(self).controller_temp == old(self).controller_temp,
            final(self).motor_temp == old(self).motor_temp,
            final(self).direction == old(self).direction,
            final(self).feedback == old(self).feedback,
            final(self).brake == old(self).brake,
            final(self).foot_sw == old(self).foot_sw,
            final(self).boost_sw == old(self).boost_sw,
            final(self).kelly_faults == old(self).kelly_faults,
    {
        let mut data = self.mppt[unit];
        data.apply_message(message);
        self.mppt[unit] = data;
    }
}

/// Takes in a decoded frame. Returns false, and changes nothing, if no
/// decoder knew the frame.
pub fn apply_decoded(t: &mut Telemetry, decoded: &Decoded) -> (r: bool)
    ensures
        r <==> old(t)@.after_decoded(*decoded) is Some,
        r ==> old(t)@.after_decoded(*decoded) == Some(final(t)@),
        !r ==> final(t)@ == old(t)@,
{
    if let Some(message) = &decoded.kelly {
        t.apply_kelly(message);
        return true;
    }
    if let Some(message) = &decoded.mppt[0] {
        t.apply_mppt(0, message);
        return true;
    }
    if let Some(message) = &decoded.mppt[1] {
        t.apply_mppt(1, message);
        return true;
    }
    if let Some(message) = &decoded.mppt[2] {
        t.apply_mppt(2, message);
        return true;
    }
    false
}

/// A CAN id together with its kind.
#[derive(Debug, Clone, Copy, PartialEq, Eq, Structural)]
pub enum FrameId {
    Standard(u16),
    Extended(u32),
}

/// The CAN id of a frame, if it is within the range of its kind: 11 bits for
/// a standard id, 29 bits for an extended one.
pub open spec fn frame_id(frame: FrameView) -> Option<FrameId> {
    let id = can_id_of(frame);
    if is_extended_of(frame) {
        if id <= 0x1FFF_FFFF {
            Some(FrameId::Extended(id))
        } else {
            None
        }
    } else {
        if id <= 0x7FF {
            Some(FrameId::Standard(id as u16))
        } else {
            None
        }
    }
}

/// The CAN id of a frame, if it is within the range of its kind.
pub fn embedded_id(msg: &CanFrameMsg) -> (r: Option<FrameId>)
    ensures
        r == frame_id(msg@),
        r matches Some(FrameId::Standard(raw)) ==> raw == msg.id && msg.id <= 0x7FF,
        r matches Some(FrameId::Extended(raw)) ==> raw + 0x8000_0000 == msg.id && raw
            <= 0x1FFF_FFFF,
        r is None ==> 0x7FF < msg.id < 0x8000_0000 || msg.id > 0x9FFF_FFFF,
{
    let id: u32 = msg.can_id();
    if msg.is_extended() {
        match extended_id(id) {
            Some(raw) => Some(FrameId::Extended(raw)),
            None => None,
        }
    } else if id <= 0xFFFF {
        match standard_id(id as u16) {
            Some(raw) => Some(FrameId::Standard(raw)),
            None => None,
        }
    } else {
        None
    }
}

impl TelemetryView {
    /// The car after a frame that was read as `decoded`, if its id is in range
    /// and some decoder knew it.
    pub open spec fn after_frame(self, frame: FrameView, decoded: Decoded) -> Option<
        TelemetryView,
    > {
        match frame_id(frame) {
            Some(_) => self.after_decoded(decoded),
            None => None,
        }
    }
}

/// Whether a decoder may read a frame as `decoded`. It is only asked about
/// frames whose id is in range.
pub open spec fn read_by<F: Fn(FrameId, &[u8]) -> Decoded>(
    decoder: F,
    frame: FrameView,
    decoded: Decoded,
) -> bool {
    frame_id(frame) matches Some(id) ==> exists|data: &[u8]|
        data@ == frame.1 && #[trigger] call_ensures(decoder, (id, data), decoded)
}

/// Takes in a frame, as the given decoder reads it. Returns false, and
/// changes nothing, if the id is out of range or no message has it.
pub fn apply<F: Fn(FrameId, &[u8]) -> Decoded>(
    t: &mut Telemetry,
    msg: &CanFrameMsg,
    decoder: &F,
) -> (r: bool)
    requires
        forall|id: FrameId, data: &[u8]| call_requires(*decoder, (id, data)),
    ensures
        frame_id(msg@) is None ==> !r,
        !r ==> final(t)@ == old(t)@,
        exists|decoded: Decoded|
            {
                &&& #[trigger] read_by(*decoder, msg@, decoded)
                &&& r <==> old(t)@.after_frame(msg@, decoded) is Some
                &&& r ==> old(t)@.after_frame(msg@, decoded) == Some(final(t)@)
            },
{
    match embedded_id(msg) {
        None => {
            proof {
                let any: Decoded = arbitrary();
                assert(read_by(*decoder, msg@, any));
            }
            false
        },
        Some(id) => {
            let data = payload_as_slice(&msg.data);
            let decoded = decoder(id, data);
            assert(read_by(*decoder, msg@, decoded));
            apply_decoded(t, &decoded)
        },
    }
}

/// An id that a bus can carry reaches the decoders as it was: the flag on the
/// wire tells the kinds apart.
pub proof fn law_bus_id_reaches_decoder(raw_id: u32, extended: bool, data: Seq<u8>, offset: u16)
    requires
        raw_id <= (if extended {
            0x1FFF_FFFFu32
        } else {
            0x7FF
        }),
    ensures
        frame_id((wire_id_spec(raw_id, extended), data, offset)) == Some(
            if extended {
                FrameId::Extended(raw_id)
            } else {
                FrameId::Standard(raw_id as u16)
            },
        ),
{
    law_wire_id_keeps_id_and_kind(raw_id, extended, data, offset);
}

/// The charge controller whose message counts, when the motor controller's
/// decoder did not know the frame.
spec fn sending_unit(decoded: Decoded) -> int {
    if decoded.mppt@[0] is Some {
        0
    } else if decoded.mppt@[1] is Some {
        1
    } else {
        2
    }
}

proof fn lemma_decoded_by_unit(car: TelemetryView, decoded: Decoded)
    requires
        decoded.kelly is None,
        decoded.kind() is Some,
    ensures
        decoded.mppt@[sending_unit(decoded)] matches Some(message) ==> {
            &&& car.after_decoded(decoded) == Some(
                car.after_mppt(sending_unit(decoded), message),
            )
            &&& decoded.kind() == Some(message.kind(sending_unit(decoded)))
        },
        decoded.mppt@[sending_unit(decoded)] is Some,
{
}

proof fn lemma_last_kelly_message_wins(car: TelemetryView, a: KellyMessage, b: KellyMessage)
    requires
        a is Message1 <==> b is Message1,
    ensures
        car.after_kelly(a).after_kelly(b) == car.after_kelly(b),
{
}

proof fn lemma_last_unit_message_wins(unit: MpptData, a: MpptMessage, b: MpptMessage)
    requires
        a.kind(0) == b.kind(0),
    ensures
        unit.after(a).after(b) == unit.after(b),
{
}

proof fn lemma_last_mppt_message_wins(
    car: TelemetryView,
    unit: int,
    a: MpptMessage,
    b: MpptMessage,
)
    requires
        0 <= unit < car.mppt.len(),
        a.kind(unit) == b.kind(unit),
    ensures
        car.after_mppt(unit, a).after_mppt(unit, b) == car.after_mppt(unit, b),
{
    lemma_last_unit_message_wins(car.mppt[unit], a, b);
    assert(car.after_mppt(unit, a).after_mppt(unit, b).mppt =~= car.after_mppt(unit, b).mppt);
}

proof fn lemma_kelly_messages_commute(car: TelemetryView, a: KellyMessage, b: KellyMessage)
    requires
        a is Message1 <==> b is Message2,
    ensures
        car.after_kelly(a).after_kelly(b) == car.after_kelly(b).after_kelly(a),
{
}

proof fn lemma_unit_messages_commute(unit: MpptData, a: MpptMessage, b: MpptMessage)
    requires
        a.kind(0) != b.kind(0),
    ensures
        unit.after(a).after(b) == unit.after(b).after(a),
{
}

proof fn lemma_mppt_messages_commute(
    car: TelemetryView,
    unit_a: int,
    a: MpptMessage,
    unit_b: int,
    b: MpptMessage,
)
    requires
        0 <= unit_a < car.mppt.len(),
        0 <= unit_b < car.mppt.len(),
        a.kind(unit_a) != b.kind(unit_b),
    ensures
        car.after_mppt(unit_a, a).after_mppt(unit_b, b) == car.after_mppt(unit_b, b).after_mppt(
            unit_a,
            a,
        ),
{
    if unit_a == unit_b {
        lemma_unit_messages_commute(car.mppt[unit_a], a, b);
    }
    assert(car.after_mppt(unit_a, a).after_mppt(unit_b, b).mppt =~= car.after_mppt(
        unit_b,
        b,
    ).after_mppt(unit_a, a).mppt);
}

proof fn lemma_kelly_and_mppt_commute(
    car: TelemetryView,
    a: KellyMessage,
    unit: int,
    b: MpptMessage,
)
    ensures
        car.after_kelly(a).after_mppt(unit, b) == car.after_mppt(unit, b).after_kelly(a),
{
}

/// The last message of a kind wins: what an earlier one of the same sender
/// and kind set is gone without a trace.
pub proof fn law_last_message_of_a_kind_wins(car: TelemetryView, a: Decoded, b: Decoded)
    requires
        car.mppt.len() == 3,
        a.kind() == b.kind(),
    ensures
        car.after_decoded(a) matches Some(next) ==> next.after_decoded(b) == car.after_decoded(b),
        car.after_any(a).after_any(b) == car.after_any(b),
{
    if a.kind() is Some {
        match (a.kelly, b.kelly) {
            (Some(first), Some(second)) => {
                lemma_last_kelly_message_wins(car, first, second);
            },
            (None, None) => {
                let unit = sending_unit(a);
                let first = a.mppt@[unit]->Some_0;
                let second = b.mppt@[sending_unit(b)]->Some_0;
                lemma_decoded_by_unit(car, a);
                lemma_decoded_by_unit(car, b);
                lemma_decoded_by_unit(car.after_mppt(unit, first), b);
                lemma_last_mppt_message_wins(car, unit, first, second);
            },
            _ => {},
        }
    }
}

/// Taking in the same decoded frame a second time changes nothing.
pub proof fn law_repeated_frame_changes_nothing(car: TelemetryView, decoded: Decoded)
    requires
        car.mppt.len() == 3,
    ensures
        car.after_decoded(decoded) matches Some(next) ==> next.after_decoded(decoded) == Some(next),
{
    law_last_message_of_a_kind_wins(car, decoded, decoded);
}

/// A message of the motor controller leaves every charge controller as it was,
/// and a message of one charge controller leaves everything else as it was.
pub proof fn law_message_touches_its_sender_only(
    car: TelemetryView,
    kelly: KellyMessage,
    unit: int,
    mppt: MpptMessage,
)
    requires
        car.mppt.len() == 3,
        0 <= unit < 3,
    ensures
        car.after_kelly(kelly).mppt == car.mppt,
        car.after_mppt(unit, mppt) == (TelemetryView {
            mppt: car.after_mppt(unit, mppt).mppt,
            ..car
        }),
        forall|i: int|
            0 <= i < 3 && i != unit ==> #[trigger] car.after_mppt(unit, mppt).mppt[i]
                == car.mppt[i],
{
}

/// Frames of different kinds may arrive in either order, whether they come
/// from different senders or from the same one.
pub proof fn law_independent_messages_commute(car: TelemetryView, a: Decoded, b: Decoded)
    requires
        car.mppt.len() == 3,
        a.kind() != b.kind(),
    ensures
        car.after_any(a).after_any(b) == car.after_any(b).after_any(a),
        car.after_decoded(a) matches Some(next_a) ==> (car.after_decoded(b) matches Some(next_b)
            ==> next_a.after_decoded(b) == next_b.after_decoded(a)),
{
    if a.kind() is Some && b.kind() is Some {
        match (a.kelly, b.kelly) {
            (Some(first), Some(second)) => {
                lemma_kelly_messages_commute(car, first, second);
            },
            (Some(first), None) => {
                let unit = sending_unit(b);
                let second = b.mppt@[unit]->Some_0;
                lemma_decoded_by_unit(car, b);
                lemma_decoded_by_unit(car.after_kelly(first), b);
                lemma_kelly_and_mppt_commute(car, first, unit, second);
            },
            (None, Some(second)) => {
                let unit = sending_unit(a);
                let first = a.mppt@[unit]->Some_0;
                lemma_decoded_by_unit(car, a);
                lemma_decoded_by_unit(car.after_kelly(second), a);
                lemma_kelly_and_mppt_commute(car, second, unit, first);
            },
            (None, None) => {
                let unit_a = sending_unit(a);
                let unit_b = sending_unit(b);
                let first = a.mppt@[unit_a]->Some_0;
                let second = b.mppt@[unit_b]->Some_0;
                lemma_decoded_by_unit(car, a);
                lemma_decoded_by_unit(car, b);
                lemma_decoded_by_unit(car.after_mppt(unit_a, first), b);
                lemma_decoded_by_unit(car.after_mppt(unit_b, second), a);
                lemma_mppt_messages_commute(car, unit_a, first, unit_b, second);
            },
        }
    }
}

proof fn lemma_after_all_keeps_units(car: TelemetryView, decoded: Seq<Decoded>)
    requires
        car.mppt.len() == 3,
    ensures
        car.after_all(decoded).mppt.len() == 3,
    decreases decoded.len(),
{
    if decoded.len() > 0 {
        lemma_after_all_keeps_units(car, decoded.drop_last());
    }
}

/// Whatever arrives in between, once a message of some kind has come in, it
/// makes no difference whether an earlier one of that kind ever did.
pub proof fn law_superseded_frame_leaves_no_trace(
    car: TelemetryView,
    earlier: Decoded,
    between: Seq<Decoded>,
    later: Decoded,
)
    requires
        car.mppt.len() == 3,
        earlier.kind() == later.kind(),
    ensures
        car.after_any(earlier).after_all(between).after_any(later) == car.after_all(
            between,
        ).after_any(later),
    decreases between.len(),
{
    if between.len() == 0 {
        law_last_message_of_a_kind_wins(car, earlier, later);
    } else {
        let rest = between.drop_last();
        let middle = between.last();
        if middle.kind() == later.kind() {
            law_superseded_frame_leaves_no_trace(car, earlier, rest, middle);
        } else {
            law_superseded_frame_leaves_no_trace(car, earlier, rest, later);
            lemma_after_all_keeps_units(car, rest);
            lemma_after_all_keeps_units(car.after_any(earlier), rest);
            law_independent_messages_commute(car.after_all(rest), middle, later);
            law_independent_messages_commute(
                car.after_any(earlier).after_all(rest),
                middle,
                later,
            );
        }
    }
}

/// Before the first frame no fault shows.
pub proof fn law_silent_car_shows_no_fault()
    ensures
        !silent_car().any_fault_spec(),
{
}

/// The state of the car is known by all of its fields.
pub proof fn law_telemetry_view_is_complete(car: Telemetry)
    ensures
        car@.rpm == car.rpm,
        car@.battery_voltage == car.battery_voltage,
        car@.motor_current == car.motor_current,
        car@.throttle == car.throttle,
        car@.controller_temp == car.controller_temp,
        car@.motor_temp == car.motor_temp,
        car@.direction == car.direction,
        car@.feedback == car.feedback,
        car@.brake == car.brake,
        car@.foot_sw == car.foot_sw,
        car@.boost_sw == car.boost_sw,
        car@.kelly_faults == car.kelly_faults,
        car@.mppt == car.mppt@,
        car@.mppt.len() == 3,
{
}

/// A message of the motor controller sets what it is named for, and nothing
/// else: the first one speed, current, voltage and each fault, the second one
/// throttle, temperatures, directions and each switch.
pub proof fn law_kelly_message_sets_its_values(car: TelemetryView, message: KellyMessage)
    ensures
        message matches KellyMessage::Message1 {
            speed_rpm,
            motor_current,
            battery_voltage,
            over_voltage,
            low_voltage,
            stall,
            internal_volts_fault,
            over_temperature,
            motor_over_temperature,
            throttle_error,
            hall_throttle_open,
            angle_sensor_error,
            hall_galvanometer_error,
            id_error,
        } ==> {
            &&& car.after_kelly(message).rpm == speed_rpm
            &&& car.after_kelly(message).battery_voltage == battery_voltage
            &&& car.after_kelly(message).motor_current == motor_current
            &&& car.after_kelly(message).throttle == car.throttle
            &&& car.after_kelly(message).controller_temp == car.controller_temp
            &&& car.after_kelly(message).motor_temp == car.motor_temp
            &&& car.after_kelly(message).direction == car.direction
            &&& car.after_kelly(message).feedback == car.feedback
            &&& car.after_kelly(message).brake == car.brake
            &&& car.after_kelly(message).foot_sw == car.foot_sw
            &&& car.after_kelly(message).boost_sw == car.boost_sw
            &&& car.after_kelly(message).kelly_faults.over_voltage == over_voltage
            &&& car.after_kelly(message).kelly_faults.low_voltage == low_voltage
            &&& car.after_kelly(message).kelly_faults.stall == stall
            &&& car.after_kelly(message).kelly_faults.internal_volts == internal_volts_fault
            &&& car.after_kelly(message).kelly_faults.controller_over_temp == over_temperature
            &&& car.after_kelly(message).kelly_faults.motor_over_temp == motor_over_temperature
            &&& car.after_kelly(message).kelly_faults.throttle_error == throttle_error
            &&& car.after_kelly(message).kelly_faults.hall_throttle_open == hall_throttle_open
            &&& car.after_kelly(message).kelly_faults.angle_sensor == angle_sensor_error
            &&& car.after_kelly(message).kelly_faults.hall_galvanometer == hall_galvanometer_error
            &&& car.after_kelly(message).kelly_faults.id_error == id_error
            &&& car.after_kelly(message).mppt == car.mppt
        },
        message matches KellyMessage::Message2 {
            throttle,
            controller_temperature,
            motor_temperature,
            command_status,
            feedback_status,
            brake_switch,
            foot_switch,
            boost_switch,
        } ==> {
            &&& car.after_kelly(message).rpm == car.rpm
            &&& car.after_kelly(message).battery_voltage == car.battery_voltage
            &&& car.after_kelly(message).motor_current == car.motor_current
            &&& car.after_kelly(message).throttle == throttle
            &&& car.after_kelly(message).controller_temp == controller_temperature
            &&& car.after_kelly(message).motor_temp == motor_temperature
            &&& command_status == CommandStatus::Forward <==> car.after_kelly(message).direction
                == MotorDirection::Forward
            &&& command_status == CommandStatus::Neutral <==> car.after_kelly(message).direction
                == MotorDirection::Neutral
            &&& command_status == CommandStatus::Backward <==> car.after_kelly(message).direction
                == MotorDirection::Reverse
            &&& command_status == CommandStatus::Other <==> car.after_kelly(message).direction
                == MotorDirection::Unknown
            &&& feedback_status == FeedbackStatus::Stationary <==> car.after_kelly(message).feedback
                == MotorFeedback::Stationary
            &&& feedback_status == FeedbackStatus::Forward <==> car.after_kelly(message).feedback
                == MotorFeedback::Forward
            &&& feedback_status == FeedbackStatus::Backward <==> car.after_kelly(message).feedback
                == MotorFeedback::Backward
            &&& feedback_status == FeedbackStatus::Other <==> car.after_kelly(message).feedback
                == MotorFeedback::Unknown
            &&& car.after_kelly(message).brake == brake_switch
            &&& car.after_kelly(message).foot_sw == foot_switch
            &&& car.after_kelly(message).boost_sw == boost_switch
            &&& car.after_kelly(message).kelly_faults == car.kelly_faults
            &&& car.after_kelly(message).mppt == car.mppt
        },
{
}

/// A message of a charge controller sets what it is named for, and nothing
/// else; any one error is a fault, an undervoltage of the 12 V supply is kept
/// apart, and any one limit means limiting.
pub proof fn law_unit_message_sets_its_values(unit: MpptData, message: MpptMessage)
    ensures
        message matches MpptMessage::PowerInput { input_voltage, input_current } ==> {
            &&& unit.after(message).input_voltage == input_voltage
            &&& unit.after(message).input_current == input_current
            &&& unit.after(message).output_voltage == unit.output_voltage
            &&& unit.after(message).output_current == unit.output_current
            &&& unit.after(message).mosfet_temp == unit.mosfet_temp
            &&& unit.after(message).fault == unit.fault
            &&& unit.after(message).limiting == unit.limiting
            &&& unit.after(message).aux_fault == unit.aux_fault
        },
        message matches MpptMessage::PowerOutput { output_voltage, output_current } ==> {
            &&& unit.after(message).input_voltage == unit.input_voltage
            &&& unit.after(message).input_current == unit.input_current
            &&& unit.after(message).output_voltage == output_voltage
            &&& unit.after(message).output_current == output_current
            &&& unit.after(message).mosfet_temp == unit.mosfet_temp
            &&& unit.after(message).fault == unit.fault
            &&& unit.after(message).limiting == unit.limiting
            &&& unit.after(message).aux_fault == unit.aux_fault
        },
        message matches MpptMessage::Temperature { mosfet_temperature } ==> {
            &&& unit.after(message).input_voltage == unit.input_voltage
            &&& unit.after(message).input_current == unit.input_current
            &&& unit.after(message).output_voltage == unit.output_voltage
            &&& unit.after(message).output_current == unit.output_current
            &&& unit.after(message).mosfet_temp == mosfet_temperature
            &&& unit.after(message).fault == unit.fault
            &&& unit.after(message).limiting == unit.limiting
            &&& unit.after(message).aux_fault == unit.aux_fault
        },
        message matches MpptMessage::Status {
            error_mosfet_overheat,
            error_low_array_power,
            error_hw_over_voltage,
            error_hw_over_current,
            error_battery_low,
            error_battery_full,
            error_12v_undervoltage,
            limit_output_voltage_max,
            limit_mosfet_temperature,
            limit_local_mppt,
            limit_input_current_min,
            limit_input_current_max,
            limit_global_mppt,
            limit_duty_cycle_max,
            limit_duty_cycle_min,
        } ==> {
            &&& unit.after(message).input_voltage == unit.input_voltage
            &&& unit.after(message).input_current == unit.input_current
            &&& unit.after(message).output_voltage == unit.output_voltage
            &&& unit.after(message).output_current == unit.output_current
            &&& unit.after(message).mosfet_temp == unit.mosfet_temp
            &&& unit.after(message).fault <==> (error_mosfet_overheat || error_low_array_power
                || error_hw_over_voltage || error_hw_over_current || error_battery_low
                || error_battery_full)
            &&& unit.after(message).limiting <==> (limit_output_voltage_max
                || limit_mosfet_temperature || limit_local_mppt || limit_input_current_min
                || limit_input_current_max || limit_global_mppt || limit_duty_cycle_max
                || limit_duty_cycle_min)
            &&& unit.after(message).aux_fault == error_12v_undervoltage
        },
        message is Other ==> unit.after(message) == unit,
{
}

/// The first decoder that knows a frame decides what becomes of it: its
/// message is taken in, by the sender that the decoder belongs to. A frame
/// that none knows gives nothing.
pub proof fn law_first_decoder_decides(car: TelemetryView, decoded: Decoded)
    requires
        car.mppt.len() == 3,
    ensures
        decoded.kelly matches Some(message) ==> car.after_decoded(decoded) == Some(
            car.after_kelly(message),
        ),
        forall|unit: int|
            0 <= unit < 3 && decoded.kelly is None && (#[trigger] decoded.mppt@[unit]) is Some && (
            forall|i: int| 0 <= i < unit ==> (#[trigger] decoded.mppt@[i]) is None) ==> {
                let next = car.after_decoded(decoded)->Some_0;
                &&& car.after_decoded(decoded) is Some
                &&& next.mppt.len() == 3
                &&& next.mppt[unit] == car.mppt[unit].after(decoded.mppt@[unit]->Some_0)
                &&& forall|i: int| 0 <= i < 3 && i != unit ==> #[trigger] next.mppt[i]
                    == car.mppt[i]
                &&& next.rpm == car.rpm
                &&& next.battery_voltage == car.battery_voltage
                &&& next.motor_current == car.motor_current
                &&& next.throttle == car.throttle
                &&& next.controller_temp == car.controller_temp
                &&& next.motor_temp == car.motor_temp
                &&& next.direction == car.direction
                &&& next.feedback == car.feedback
                &&& next.brake == car.brake
                &&& next.foot_sw == car.foot_sw
                &&& next.boost_sw == car.boost_sw
                &&& next.kelly_faults == car.kelly_faults
            },
        decoded.kelly is None && (forall|i: int|
            0 <= i < 3 ==> (#[trigger] decoded.mppt@[i]) is None) ==> car.after_decoded(decoded)
            is None,
{
    assert(decoded.mppt@[0] is None || decoded.mppt@[0] is Some);
    assert(decoded.mppt@[1] is None || decoded.mppt@[1] is Some);
    assert(decoded.mppt@[2] is None || decoded.mppt@[2] is Some);
}

/// A frame counts exactly when its id is in range, standard or extended alike,
/// and then for what it was read as.
pub proof fn law_frame_in_range_counts(car: TelemetryView, frame: FrameView, decoded: Decoded)
    ensures
        frame.0 <= 0x7FF || 0x8000_0000 <= frame.0 <= 0x9FFF_FFFF ==> car.after_frame(
            frame,
            decoded,
        ) == car.after_decoded(decoded),
        0x7FF < frame.0 < 0x8000_0000 || frame.0 > 0x9FFF_FFFF ==> car.after_frame(
            frame,
            decoded,
        ) is None,
{
}

/// Which ids are in range, and what the decoders are told of them.
pub proof fn law_ids_in_range(frame: FrameView)
    ensures
        frame.0 <= 0x7FF ==> frame_id(frame) == Some(FrameId::Standard(frame.0 as u16)),
        0x8000_0000 <= frame.0 <= 0x9FFF_FFFF ==> frame_id(frame) == Some(
            FrameId::Extended((frame.0 - 0x8000_0000) as u32),
        ),
        0x7FF < frame.0 < 0x8000_0000 || frame.0 > 0x9FFF_FFFF ==> frame_id(frame) is None,
{
}

/// A decoder is asked about the frame's own id and its whole payload.
pub proof fn law_decoder_sees_the_frame<F: Fn(FrameId, &[u8]) -> Decoded>(
    decoder: F,
    frame: FrameView,
    decoded: Decoded,
)
    requires
        read_by(decoder, frame, decoded),
    ensures
        frame.0 <= 0x7FF ==> exists|data: &[u8]|
            data@ == frame.1 && #[trigger] call_ensures(
                decoder,
                (FrameId::Standard(frame.0 as u16), data),
                decoded,
            ),
        0x8000_0000 <= frame.0 <= 0x9FFF_FFFF ==> exists|data: &[u8]|
            data@ == frame.1 && #[trigger] call_ensures(
                decoder,
                (FrameId::Extended((frame.0 - 0x8000_0000) as u32), data),
                decoded,
            ),
{
    law_ids_in_range(frame);
}

/// Each fault is shown under its own label, and one active fault is enough to
/// make any.
pub proof fn law_each_fault_has_its_label(faults: KellyFaults)
    ensures
        faults.labelled().len() == 11,
        faults.labelled()[0] == ("Over Voltage"@, faults.over_voltage),
        faults.labelled()[1] == ("Low Voltage"@, faults.low_voltage),
        faults.labelled()[2] == ("Stall"@, faults.stall),
        faults.labelled()[3] == ("Internal Volts"@, faults.internal_volts),
        faults.labelled()[4] == ("Ctrl Over Temp"@, faults.controller_over_temp),
        faults.labelled()[5] == ("Motor Over Temp"@, faults.motor_over_temp),
        faults.labelled()[6] == ("Throttle Error"@, faults.throttle_error),
        faults.labelled()[7] == ("Hall Throttle"@, faults.hall_throttle_open),
        faults.labelled()[8] == ("Angle Sensor"@, faults.angle_sensor),
        faults.labelled()[9] == ("Hall Galvo"@, faults.hall_galvanometer),
        faults.labelled()[10] == ("ID Error"@, faults.id_error),
        faults.any_active() <==> faults.over_voltage || faults.low_voltage || faults.stall
            || faults.internal_volts || faults.controller_over_temp || faults.motor_over_temp
            || faults.throttle_error || faults.hall_throttle_open || faults.angle_sensor
            || faults.hall_galvanometer || faults.id_error,
{
    assert(faults.labelled().len() == 11);
    assert(faults.labelled()[0].1 == faults.over_voltage);
    assert(faults.labelled()[1].1 == faults.low_voltage);
    assert(faults.labelled()[2].1 == faults.stall);
    assert(faults.labelled()[3].1 == faults.internal_volts);
    assert(faults.labelled()[4].1 == faults.controller_over_temp);
    assert(faults.labelled()[5].1 == faults.motor_over_temp);
    assert(faults.labelled()[6].1 == faults.throttle_error);
    assert(faults.labelled()[7].1 == faults.hall_throttle_open);
    assert(faults.labelled()[8].1 == faults.angle_sensor);
    assert(faults.labelled()[9].1 == faults.hall_galvanometer);
    assert(faults.labelled()[10].1 == faults.id_error);
}

/// A fault or an undervoltage of the 12 V supply makes a fault, limiting shows
/// only without one, and a unit is in order only without any of them.
pub proof fn law_unit_status_follows_its_flags(unit: MpptData)
    ensures
        unit.status_spec() == MpptStatus::Fault <==> unit.fault || unit.aux_fault,
        unit.status_spec() == MpptStatus::Limiting <==> unit.limiting && !unit.fault
            && !unit.aux_fault,
        unit.status_spec() == MpptStatus::Nominal <==> !unit.limiting && !unit.fault
            && !unit.aux_fault,
{
}

/// The car shows a fault exactly when the motor controller or one of the
/// charge controllers reports one.
pub proof fn law_any_fault_is_a_fault_of_someone(car: TelemetryView)
    requires
        car.mppt.len() == 3,
    ensures
        car.any_fault_spec() <==> car.kelly_faults.any_active() || car.mppt[0].fault
            || car.mppt[0].aux_fault || car.mppt[1].fault || car.mppt[1].aux_fault
            || car.mppt[2].fault || car.mppt[2].aux_fault,
{
    assert(car.mppt[0].status_spec() == MpptStatus::Fault || !car.mppt[0].fault);
    assert(car.mppt[1].status_spec() == MpptStatus::Fault || !car.mppt[1].fault);
    assert(car.mppt[2].status_spec() == MpptStatus::Fault || !car.mppt[2].fault);
}

/// A car that has reported nothing reads zero everywhere, stands still in
/// neutral, and has every switch and flag off.
pub proof fn law_silent_car_reads_zero(unit: int)
    requires
        0 <= unit < 3,
    ensures
        silent_car().mppt.len() == 3,
        silent_car().rpm.bits == 0,
        silent_car().battery_voltage.bits == 0,
        silent_car().motor_current.bits == 0,
        silent_car().throttle.bits == 0,
        silent_car().controller_temp.bits == 0,
        silent_car().motor_temp.bits == 0,
        silent_car().direction == MotorDirection::Neutral,
        silent_car().feedback == MotorFeedback::Stationary,
        !silent_car().brake,
        !silent_car().foot_sw,
        !silent_car().boost_sw,
        !silent_car().kelly_faults.over_voltage,
        !silent_car().kelly_faults.low_voltage,
        !silent_car().kelly_faults.stall,
        !silent_car().kelly_faults.internal_volts,
        !silent_car().kelly_faults.controller_over_temp,
        !silent_car().kelly_faults.motor_over_temp,
        !silent_car().kelly_faults.throttle_error,
        !silent_car().kelly_faults.hall_throttle_open,
        !silent_car().kelly_faults.angle_sensor,
        !silent_car().kelly_faults.hall_galvanometer,
        !silent_car().kelly_faults.id_error,
        silent_car().mppt[unit].input_voltage.bits == 0,
        silent_car().mppt[unit].input_current.bits == 0,
        silent_car().mppt[unit].output_voltage.bits == 0,
        silent_car().mppt[unit].output_current.bits == 0,
        silent_car().mppt[unit].mosfet_temp.bits == 0,
        !silent_car().mppt[unit].fault,
        !silent_car().mppt[unit].limiting,
        !silent_car().mppt[unit].aux_fault,
        zero_reading().bits == 0,
        silent_mppt() == silent_car().mppt[unit],
        no_faults() == silent_car().kelly_faults,
{
}

/// Frames taken in one after the other: none leaves the car as it was, one
/// does what it does alone, and a row of frames does what its parts do in
/// turn.
pub proof fn law_frames_are_taken_in_one_by_one(
    car: TelemetryView,
    first: Seq<Decoded>,
    second: Seq<Decoded>,
    decoded: Decoded,
)
    ensures
        car.after_all(Seq::empty()) == car,
        car.after_decoded(decoded) matches Some(next) ==> car.after_all(seq![decoded]) == next,
        car.after_decoded(decoded) is None ==> car.after_all(seq![decoded]) == car,
        car.after_all(first + second) == car.after_all(first).after_all(second),
    decreases second.len(),
{
    reveal_with_fuel(TelemetryView::after_all, 2);
    assert(seq![decoded].drop_last() =~= Seq::<Decoded>::empty());
    if second.len() == 0 {
        assert(first + second =~= first);
    } else {
        law_frames_are_taken_in_one_by_one(car, first, second.drop_last(), decoded);
        assert((first + second).drop_last() =~= first + second.drop_last());
    }
}

} // verus!
