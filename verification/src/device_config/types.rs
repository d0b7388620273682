//! Kinds of connected devices.

use crate::error::AppResult;
use vstd::prelude::*;

verus! {

/// Kind of a connected device.
#[derive(Clone, Copy, PartialEq, Eq, Structural, Debug)]
pub enum DeviceType {
    TrafficSignal2Pt,
    TrafficSignalGreenLock,
    TrafficSignalRedLock,
    TrafficSignal4Pt,
    TrafficSignal4PtInter,
    TrafficSignal4PtDual,
    TrafficSignal6Pt,
    TrafficSignal6Pt5,
    TrafficTurnSingle,
    TrafficTurnDual,
    CrossHoleSignal,
    Signal3Light,
    Signal4Light,
    JetFan2Pt,
    JetFan3Pt,
    JetFan2PtInterlock,
    Blower2Pt,
    Blower1Pt,
    Lighting2Pt,
    Lighting1Pt,
    Pump2Pt,
    Pump1Pt,
    RollingShutter,
    FireDoor1Pt,
    FireDoor2Pt,
    CoviSensor,
    No2Sensor,
    CoviNo2Sensor,
    WindDirSpeed,
    HoleLightIntensity,
    OutLightIntensity,
    CarCheck,
    Rs485Config1,
    Rs485Config2,
    PositionNumber,
    Unknown(u8),
}

impl DeviceType {
    /// The kind with a given code.
    pub open spec fn of_code(v: u8) -> DeviceType {
        if v == 0x00 {
            DeviceType::TrafficSignal2Pt
        } else if v == 0x01 {
            DeviceType::TrafficSignalGreenLock
        } else if v == 0x02 {
            DeviceType::TrafficSignalRedLock
        } else if v == 0x03 {
            DeviceType::TrafficSignal4Pt
        } else if v == 0x04 {
            DeviceType::TrafficSignal4PtInter
        } else if v == 0x05 {
            DeviceType::TrafficSignal4PtDual
        } else if v == 0x06 {
            DeviceType::TrafficSignal6Pt
        } else if v == 0x07 {
            DeviceType::TrafficSignal6Pt5
        } else if v == 0x08 {
            DeviceType::TrafficTurnSingle
        } else if v == 0x09 {
            DeviceType::TrafficTurnDual
        } else if v == 0x0A {
            DeviceType::CrossHoleSignal
        } else if v == 0x0B {
            DeviceType::Signal3Light
        } else if v == 0x0C {
            DeviceType::Signal4Light
        } else if v == 0x0D {
            DeviceType::JetFan2Pt
        } else if v == 0x0E {
            DeviceType::JetFan3Pt
        } else if v == 0x0F {
            DeviceType::JetFan2PtInterlock
        } else if v == 0x10 {
            DeviceType::Blower2Pt
        } else if v == 0x11 {
            DeviceType::Blower1Pt
        } else if v == 0x12 {
            DeviceType::Lighting2Pt
        } else if v == 0x13 {
            DeviceType::Lighting1Pt
        } else if v == 0x14 {
            DeviceType::Pump2Pt
        } else if v == 0x15 {
            DeviceType::Pump1Pt
        } else if v == 0x16 {
            DeviceType::RollingShutter
        } else if v == 0x17 {
            DeviceType::FireDoor1Pt
        } else if v == 0x18 {
            DeviceType::FireDoor2Pt
        } else if v == 0x19 {
            DeviceType::CoviSensor
        } else if v == 0x1A {
            DeviceType::No2Sensor
        } else if v == 0x1B {
            DeviceType::CoviNo2Sensor
        } else if v == 0x1C {
            DeviceType::WindDirSpeed
        } else if v == 0x1D {
            DeviceType::HoleLightIntensity
        } else if v == 0x1E {
            DeviceType::OutLightIntensity
        } else if v == 0x1F {
            DeviceType::CarCheck
        } else if v == 0x20 {
            DeviceType::Rs485Config1
        } else if v == 0x21 {
            DeviceType::Rs485Config2
        } else if v == 0x22 {
            DeviceType::PositionNumber
        } else {
            DeviceType::Unknown(v)
        }
    }

    /// The code of the kind.
    pub open spec fn code(self) -> u8 {
        match self {
            DeviceType::TrafficSignal2Pt => 0x00,
            DeviceType::TrafficSignalGreenLock => 0x01,
            DeviceType::TrafficSignalRedLock => 0x02,
            DeviceType::TrafficSignal4Pt => 0x03,
            DeviceType::TrafficSignal4PtInter => 0x04,
            DeviceType::TrafficSignal4PtDual => 0x05,
            DeviceType::TrafficSignal6Pt => 0x06,
            DeviceType::TrafficSignal6Pt5 => 0x07,
            DeviceType::TrafficTurnSingle => 0x08,
            DeviceType::TrafficTurnDual => 0x09,
            DeviceType::CrossHoleSignal => 0x0A,
            DeviceType::Signal3Light => 0x0B,
            DeviceType::Signal4Light => 0x0C,
            DeviceType::JetFan2Pt => 0x0D,
            DeviceType::JetFan3Pt => 0x0E,
            DeviceType::JetFan2PtInterlock => 0x0F,
            DeviceType::Blower2Pt => 0x10,
            DeviceType::Blower1Pt => 0x11,
            DeviceType::Lighting2Pt => 0x12,
            DeviceType::Lighting1Pt => 0x13,
            DeviceType::Pump2Pt => 0x14,
            DeviceType::Pump1Pt => 0x15,
            DeviceType::RollingShutter => 0x16,
            DeviceType::FireDoor1Pt => 0x17,
            DeviceType::FireDoor2Pt => 0x18,
            DeviceType::CoviSensor => 0x19,
            DeviceType::No2Sensor => 0x1A,
            DeviceType::CoviNo2Sensor => 0x1B,
            DeviceType::WindDirSpeed => 0x1C,
            DeviceType::HoleLightIntensity => 0x1D,
            DeviceType::OutLightIntensity => 0x1E,
            DeviceType::CarCheck => 0x1F,
            DeviceType::Rs485Config1 => 0x20,
            DeviceType::Rs485Config2 => 0x21,
            DeviceType::PositionNumber => 0x22,
            DeviceType::Unknown(v) => v,
        }
    }

    /// Whether the kind is the one with its code.
    pub open spec fn known(self) -> bool {
        self matches DeviceType::Unknown(v) ==> v > 0x22
    }

    pub fn from_u8(v: u8) -> (r: Self)
        ensures
            r == Self::of_code(v),
    {
        match v {
            0x00 => Self::TrafficSignal2Pt,
            0x01 => Self::TrafficSignalGreenLock,
            0x02 => Self::TrafficSignalRedLock,
            0x03 => Self::TrafficSignal4Pt,
            0x04 => Self::TrafficSignal4PtInter,
            0x05 => Self::TrafficSignal4PtDual,
            0x06 => Self::TrafficSignal6Pt,
            0x07 => Self::TrafficSignal6Pt5,
            0x08 => Self::TrafficTurnSingle,
            0x09 => Self::TrafficTurnDual,
            0x0A => Self::CrossHoleSignal,
            0x0B => Self::Signal3Light,
            0x0C => Self::Signal4Light,
            0x0D => Self::JetFan2Pt,
            0x0E => Self::JetFan3Pt,
            0x0F => Self::JetFan2PtInterlock,
            0x10 => Self::Blower2Pt,
            0x11 => Self::Blower1Pt,
            0x12 => Self::Lighting2Pt,
            0x13 => Self::Lighting1Pt,
            0x14 => Self::Pump2Pt,
            0x15 => Self::Pump1Pt,
            0x16 => Self::RollingShutter,
            0x17 => Self::FireDoor1Pt,
            0x18 => Self::FireDoor2Pt,
            0x19 => Self::CoviSensor,
            0x1A => Self::No2Sensor,
            0x1B => Self::CoviNo2Sensor,
            0x1C => Self::WindDirSpeed,
            0x1D => Self::HoleLightIntensity,
            0x1E => Self::OutLightIntensity,
            0x1F => Self::CarCheck,
            0x20 => Self::Rs485Config1,
            0x21 => Self::Rs485Config2,
            0x22 => Self::PositionNumber,
            _ => Self::Unknown(v),
        }
    }

    pub fn as_u8(&self) -> (r: u8)
        ensures
            r == self.code(),
    {
        match self {
            Self::TrafficSignal2Pt => 0x00,
            Self::TrafficSignalGreenLock => 0x01,
            Self::TrafficSignalRedLock => 0x02,
            Self::TrafficSignal4Pt => 0x03,
            Self::TrafficSignal4PtInter => 0x04,
            Self::TrafficSignal4PtDual => 0x05,
            Self::TrafficSignal6Pt => 0x06,
            Self::TrafficSignal6Pt5 => 0x07,
            Self::TrafficTurnSingle => 0x08,
            Self::TrafficTurnDual => 0x09,
            Self::CrossHoleSignal => 0x0A,
            Self::Signal3Light => 0x0B,
            Self::Signal4Light => 0x0C,
            Self::JetFan2Pt => 0x0D,
            Self::JetFan3Pt => 0x0E,
            Self::JetFan2PtInterlock => 0x0F,
            Self::Blower2Pt => 0x10,
            Self::Blower1Pt => 0x11,
            Self::Lighting2Pt => 0x12,
            Self::Lighting1Pt => 0x13,
            Self::Pump2Pt => 0x14,
            Self::Pump1Pt => 0x15,
            Self::RollingShutter => 0x16,
            Self::FireDoor1Pt => 0x17,
            Self::FireDoor2Pt => 0x18,
            Self::CoviSensor => 0x19,
            Self::No2Sensor => 0x1A,
            Self::CoviNo2Sensor => 0x1B,
            Self::WindDirSpeed => 0x1C,
            Self::HoleLightIntensity => 0x1D,
            Self::OutLightIntensity => 0x1E,
            Self::CarCheck => 0x1F,
            Self::Rs485Config1 => 0x20,
            Self::Rs485Config2 => 0x21,
            Self::PositionNumber => 0x22,
            Self::Unknown(v) => *v,
        }
    }
}

/// Every code is the code of the kind that has it.
pub proof fn law_code_of_kind(v: u8)
    ensures
        DeviceType::of_code(v).code() == v,
        DeviceType::of_code(v).known(),
{
}

/// A known kind is told by its code.
pub proof fn law_kind_of_code(t: DeviceType)
    requires
        t.known(),
    ensures
        DeviceType::of_code(t.code()) == t,
{
}

/// What a kind of device needs.
pub struct DeviceFunctionMeta {
    pub io_count: u8,
    pub has_sensor: bool,
    pub name: &'static str,
}

/// Polling and control of one kind of device.
pub trait DeviceFunction: Send + Sync {
    fn meta(&self) -> DeviceFunctionMeta;

    /// Builds a poll request for a unit.
    fn build_poll_request(&self, slave: u8) -> heapless::Vec<u8, 16>;

    /// Takes in the answer to a poll request.
    fn process_response(&self, data: &[u8]) -> AppResult<()>;

    /// Carries out a control command.
    fn handle_control(&self, channel: u8, value: u16) -> AppResult<()>;
}

} // verus!
