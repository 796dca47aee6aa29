//! HydroShift LCD / Galahad II LCD / Vision AIO coolers (VID 0x0416):
//! variant identification, LCD control modes and screen rotation.

use vstd::prelude::*;

verus! {

/// AIO LCD device variant.
#[derive(Debug, Clone, Copy, PartialEq, Eq, Structural)]
pub enum AioLcdVariant {
    /// HydroShift LCD (0x7398)
    HydroShiftLcd,
    /// HydroShift LCD RGB (0x7399)
    HydroShiftLcdRgb,
    /// HydroShift LCD TL (0x739A)
    HydroShiftLcdTl,
    /// Galahad2 LCD (0x7391)
    Galahad2Lcd,
    /// Galahad2 Vision (0x7395)
    Galahad2Vision,
}

/// The product id of each variant.
pub open spec fn aio_variant_pid(v: AioLcdVariant) -> u16 {
    match v {
        AioLcdVariant::HydroShiftLcd => 0x7398,
        AioLcdVariant::HydroShiftLcdRgb => 0x7399,
        AioLcdVariant::HydroShiftLcdTl => 0x739A,
        AioLcdVariant::Galahad2Lcd => 0x7391,
        AioLcdVariant::Galahad2Vision => 0x7395,
    }
}

/// The display name of each variant.
pub open spec fn aio_variant_name(v: AioLcdVariant) -> Seq<char> {
    match v {
        AioLcdVariant::HydroShiftLcd => "HydroShift LCD"@,
        AioLcdVariant::HydroShiftLcdRgb => "HydroShift LCD RGB"@,
        AioLcdVariant::HydroShiftLcdTl => "HydroShift LCD TL"@,
        AioLcdVariant::Galahad2Lcd => "Galahad II LCD"@,
        AioLcdVariant::Galahad2Vision => "Galahad II Vision"@,
    }
}

impl AioLcdVariant {
    /// The variant with product id `pid`, if any.
    pub fn from_pid(pid: u16) -> (r: Option<Self>)
        ensures
            match r {
                Some(v) => aio_variant_pid(v) == pid,
                None => pid != 0x7398 && pid != 0x7399 && pid != 0x739A && pid != 0x7391
                    && pid != 0x7395,
            },
    {
        match pid {
            0x7398 => Some(Self::HydroShiftLcd),
            0x7399 => Some(Self::HydroShiftLcdRgb),
            0x739A => Some(Self::HydroShiftLcdTl),
            0x7391 => Some(Self::Galahad2Lcd),
            0x7395 => Some(Self::Galahad2Vision),
            _ => None,
        }
    }

    /// Human readable variant name.
    pub fn name(&self) -> (r: &'static str)
        ensures
            r@ == aio_variant_name(*self),
    {
        match self {
            Self::HydroShiftLcd => "HydroShift LCD",
            Self::HydroShiftLcdRgb => "HydroShift LCD RGB",
            Self::HydroShiftLcdTl => "HydroShift LCD TL",
            Self::Galahad2Lcd => "Galahad II LCD",
            Self::Galahad2Vision => "Galahad II Vision",
        }
    }

    /// Whether this variant has pump head RGB (SetPumpLighting 0x83):
    /// Galahad2 LCD and Vision do, HydroShift variants do not.
    pub fn has_pump_rgb(&self) -> (r: bool)
        ensures
            r == (*self is Galahad2Lcd || *self is Galahad2Vision),
    {
        matches!(self, Self::Galahad2Lcd | Self::Galahad2Vision)
    }
}

/// Every variant maps back to itself through its product id.
pub proof fn law_aio_pid_roundtrip(v: AioLcdVariant)
    ensures
        forall|w: AioLcdVariant| aio_variant_pid(w) == aio_variant_pid(v) ==> w == v,
{
}

/// LCD control mode, sent to the device as its wire code.
#[derive(Debug, Clone, Copy, PartialEq, Eq, Structural)]
pub enum LcdControlMode {
    LocalUi,
    Application,
    LocalH264,
    LocalAvi,
    LcdSetting,
    LcdTest,
}

impl LcdControlMode {
    /// The wire code of the mode (0 to 5, in declaration order).
    pub fn code(&self) -> (r: u8)
        ensures
            r == match *self {
                LcdControlMode::LocalUi => 0u8,
                LcdControlMode::Application => 1u8,
                LcdControlMode::LocalH264 => 2u8,
                LcdControlMode::LocalAvi => 3u8,
                LcdControlMode::LcdSetting => 4u8,
                LcdControlMode::LcdTest => 5u8,
            },
    {
        match self {
            Self::LocalUi => 0,
            Self::Application => 1,
            Self::LocalH264 => 2,
            Self::LocalAvi => 3,
            Self::LcdSetting => 4,
            Self::LcdTest => 5,
        }
    }
}

/// Screen rotation, sent to the device as its wire code.
#[derive(Debug, Clone, Copy, PartialEq, Eq, Structural)]
pub enum ScreenRotation {
    Rotate0,
    Rotate90,
    Rotate180,
    Rotate270,
}

/// The rotation in degrees of each variant.
pub open spec fn rotation_degrees(r: ScreenRotation) -> u16 {
    match r {
        ScreenRotation::Rotate0 => 0,
        ScreenRotation::Rotate90 => 90,
        ScreenRotation::Rotate180 => 180,
        ScreenRotation::Rotate270 => 270,
    }
}

/// The rotation that a number of degrees selects: 90, 180 and 270 turn
/// the screen, any other value means no rotation.
pub open spec fn rotation_of_degrees(degrees: u16) -> ScreenRotation {
    if degrees == 90 {
        ScreenRotation::Rotate90
    } else if degrees == 180 {
        ScreenRotation::Rotate180
    } else if degrees == 270 {
        ScreenRotation::Rotate270
    } else {
        ScreenRotation::Rotate0
    }
}

impl ScreenRotation {
    /// The rotation for 90, 180 or 270 degrees; any other value means no rotation.
    pub fn from_degrees(degrees: u16) -> (r: Self)
        ensures
            r == rotation_of_degrees(degrees),
    {
        match degrees {
            90 => Self::Rotate90,
            180 => Self::Rotate180,
            270 => Self::Rotate270,
            _ => Self::Rotate0,
        }
    }

    /// The wire code of the rotation (0 to 3, quarter turns).
    pub fn code(&self) -> (r: u8)
        ensures
            r as int * 90 == rotation_degrees(*self),
    {
        match self {
            Self::Rotate0 => 0,
            Self::Rotate90 => 1,
            Self::Rotate180 => 2,
            Self::Rotate270 => 3,
        }
    }
}

/// Converting a rotation to degrees and back gives the same rotation.
pub proof fn law_rotation_roundtrip(r: ScreenRotation)
    ensures
        rotation_of_degrees(rotation_degrees(r)) == r,
{
}

} // verus!
