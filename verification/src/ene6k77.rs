//! ENE 6K77 wired fan controllers (SL/AL series, PID 0xA100-0xA106):
//! model identification and firmware version text.

use vstd::prelude::*;
use crate::text::{chars_to_string, dec, dec_digit, hex2, push_dec, push_hex2, push_str};

verus! {

/// ENE 6K77 model variant, determined by PID.
#[derive(Debug, Clone, Copy, PartialEq, Eq, Structural)]
pub enum Ene6k77Model {
    /// 0xA100 — SL Fan (4 groups, 4 fans max each)
    SlFan,
    /// 0xA101 — AL Fan (4 groups, dual-ring LEDs)
    AlFan,
    /// 0xA102 — SL Infinity (4 groups)
    SlInfinity,
    /// 0xA103 — SL V2 Fan (4 groups, 6 fans max each)
    SlV2Fan,
    /// 0xA104 — AL V2 Fan (4 groups, 6 fans max each)
    AlV2Fan,
    /// 0xA105 — SL V2A Fan
    SlV2aFan,
    /// 0xA106 — SL Redragon
    SlRedragon,
}

/// The product id of each model.
pub open spec fn ene_model_pid(m: Ene6k77Model) -> u16 {
    match m {
        Ene6k77Model::SlFan => 0xA100,
        Ene6k77Model::AlFan => 0xA101,
        Ene6k77Model::SlInfinity => 0xA102,
        Ene6k77Model::SlV2Fan => 0xA103,
        Ene6k77Model::AlV2Fan => 0xA104,
        Ene6k77Model::SlV2aFan => 0xA105,
        Ene6k77Model::SlRedragon => 0xA106,
    }
}

/// The display name of each model.
pub open spec fn ene_model_name(m: Ene6k77Model) -> Seq<char> {
    match m {
        Ene6k77Model::SlFan => "SL Fan"@,
        Ene6k77Model::AlFan => "AL Fan"@,
        Ene6k77Model::SlInfinity => "SL Infinity"@,
        Ene6k77Model::SlV2Fan => "SL V2 Fan"@,
        Ene6k77Model::AlV2Fan => "AL V2 Fan"@,
        Ene6k77Model::SlV2aFan => "SL V2A Fan"@,
        Ene6k77Model::SlRedragon => "SL Redragon"@,
    }
}

/// V2 models: SL V2, AL V2 and SL V2A.
pub open spec fn ene_is_v2(m: Ene6k77Model) -> bool {
    m is SlV2Fan || m is AlV2Fan || m is SlV2aFan
}

impl Ene6k77Model {
    /// The model with product id `pid`, if it is one of 0xA100-0xA106.
    pub fn from_pid(pid: u16) -> (r: Option<Self>)
        ensures
            match r {
                Some(m) => ene_model_pid(m) == pid,
                None => !(0xA100 <= pid <= 0xA106),
            },
    {
        match pid {
            0xA100 => Some(Self::SlFan),
            0xA101 => Some(Self::AlFan),
            0xA102 => Some(Self::SlInfinity),
            0xA103 => Some(Self::SlV2Fan),
            0xA104 => Some(Self::AlV2Fan),
            0xA105 => Some(Self::SlV2aFan),
            0xA106 => Some(Self::SlRedragon),
            _ => None,
        }
    }

    /// Human readable model name.
    pub fn name(&self) -> (r: &'static str)
        ensures
            r@ == ene_model_name(*self),
    {
        match self {
            Self::SlFan => "SL Fan",
            Self::AlFan => "AL Fan",
            Self::SlInfinity => "SL Infinity",
            Self::SlV2Fan => "SL V2 Fan",
            Self::AlV2Fan => "AL V2 Fan",
            Self::SlV2aFan => "SL V2A Fan",
            Self::SlRedragon => "SL Redragon",
        }
    }

    /// Whether this is a V2 model (supports 6 fans/group, 9-byte RPM response).
    pub fn is_v2(&self) -> (r: bool)
        ensures
            r == ene_is_v2(*self),
    {
        matches!(self, Self::SlV2Fan | Self::AlV2Fan | Self::SlV2aFan)
    }

    /// Whether this model uses doubled port encoding (0x10|(group*2) for effects).
    pub fn uses_double_port(&self) -> (r: bool)
        ensures
            r == (*self is AlFan || *self is AlV2Fan || *self is SlInfinity),
    {
        matches!(self, Self::AlFan | Self::AlV2Fan | Self::SlInfinity)
    }

    /// Max fans per group: 6 on V2 models, 4 otherwise.
    pub fn max_fans_per_group(&self) -> (r: u8)
        ensures
            r == (if ene_is_v2(*self) { 6u8 } else { 4u8 }),
    {
        if self.is_v2() {
            6
        } else {
            4
        }
    }
}

/// Every model maps back to itself through its product id.
pub proof fn law_ene_pid_roundtrip(m: Ene6k77Model)
    ensures
        0xA100 <= ene_model_pid(m) <= 0xA106,
        forall|n: Ene6k77Model| ene_model_pid(n) == ene_model_pid(m) ==> n == m,
{
}

/// Firmware version info read from the device.
#[derive(Debug, Clone)]
pub struct Ene6k77Firmware {
    pub customer_id: u8,
    pub project_id: u8,
    pub major_id: u8,
    pub minor_id: u8,
    pub fine_tune: u8,
}

/// The firmware version in tenths: 1.0 below fine-tune 8, otherwise
/// `(high nibble * 10 + low nibble + 2) / 10`.
pub open spec fn ene_version_tenths(fine_tune: u8) -> nat {
    if fine_tune < 8 {
        10
    } else {
        ((fine_tune as nat / 16) * 10 + fine_tune as nat % 16 + 2) as nat
    }
}

/// The version as text with one decimal, e.g. `1.0` or `2.3`.
pub open spec fn ene_version_text(fine_tune: u8) -> Seq<char> {
    dec(ene_version_tenths(fine_tune) / 10) + seq!['.'] + seq![
        dec_digit((ene_version_tenths(fine_tune) % 10) as int),
    ]
}

/// The one-line description of a firmware version.
pub open spec fn ene_firmware_text(f: Ene6k77Firmware) -> Seq<char> {
    "v"@ + ene_version_text(f.fine_tune) + " (cust=0x"@ + hex2(f.customer_id) + " proj=0x"@
        + hex2(f.project_id) + " major=0x"@ + hex2(f.major_id) + " minor=0x"@ + hex2(
        f.minor_id,
    ) + ")"@
}

impl Ene6k77Firmware {
    /// Firmware version in tenths (10 means version 1.0).
    pub fn version_tenths(&self) -> (r: u8)
        ensures
            r as nat == ene_version_tenths(self.fine_tune),
    {
        if self.fine_tune < 8 {
            10
        } else {
            let ft: u8 = self.fine_tune;
            let hi: u8 = ft >> 4;
            let lo: u8 = ft & 0x0F;
            assert(hi == ft / 16 && lo == ft % 16) by (bit_vector)
                requires
                    hi == ft >> 4,
                    lo == ft & 0x0F,
            ;
            hi * 10 + lo + 2
        }
    }

    /// The text of the version and the four ids, as
    /// `v1.0 (cust=0x01 proj=0x02 major=0x03 minor=0x04)`.
    pub fn describe(&self) -> (s: String)
        ensures
            s@ == ene_firmware_text(*self),
    {
        let tenths = self.version_tenths();
        let mut out: Vec<char> = Vec::new();
        push_str(&mut out, "v");
        push_dec(&mut out, (tenths / 10) as u64);
        out.push('.');
        out.push((48u8 + tenths % 10) as char);
        push_str(&mut out, " (cust=0x");
        push_hex2(&mut out, self.customer_id);
        push_str(&mut out, " proj=0x");
        push_hex2(&mut out, self.project_id);
        push_str(&mut out, " major=0x");
        push_hex2(&mut out, self.major_id);
        push_str(&mut out, " minor=0x");
        push_hex2(&mut out, self.minor_id);
        push_str(&mut out, ")");
        assert(out@ =~= ene_firmware_text(*self));
        chars_to_string(&out)
    }
}

} // verus!
