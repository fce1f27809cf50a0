//! Errors of the driver and the refresh rates of the sensor.

use vstd::prelude::*;

verus! {

/// Why calibration or a frame read was refused.
#[derive(Clone, Copy, Debug, PartialEq, Eq, Structural)]
pub enum Error {
    /// More than four pixels whose calibration word is zero.
    TooManyBrokenPixels,
    /// More than four pixels flagged as outliers.
    TooManyOutlierPixels,
    /// More than four broken and outlier pixels together.
    TooManyBadPixels,
    /// Two bad pixels touch each other (also diagonally).
    AdjacentBadPixels,
    /// A frame or auxiliary word holds the "not measured" marker.
    FrameDataError,
    /// No new frame arrived within the poll limit.
    Timeout,
}

/// Refresh rate of the sensor, by its 3-bit register code.
#[derive(Clone, Copy, Debug, PartialEq, Eq, Structural)]
pub enum FrameRate {
    Half,
    One,
    Two,
    Four,
    Eight,
    Sixteen,
    ThirtyTwo,
    SixtyFour,
}

/// Register code of a refresh rate.
pub open spec fn rate_code(fr: FrameRate) -> u16 {
    match fr {
        FrameRate::Half => 0,
        FrameRate::One => 1,
        FrameRate::Two => 2,
        FrameRate::Four => 3,
        FrameRate::Eight => 4,
        FrameRate::Sixteen => 5,
        FrameRate::ThirtyTwo => 6,
        FrameRate::SixtyFour => 7,
    }
}

/// Refresh rate of a register code, if the code names one.
pub open spec fn rate_of_code(raw: u16) -> Result<FrameRate, ()> {
    if raw == 0 {
        Ok(FrameRate::Half)
    } else if raw == 1 {
        Ok(FrameRate::One)
    } else if raw == 2 {
        Ok(FrameRate::Two)
    } else if raw == 3 {
        Ok(FrameRate::Four)
    } else if raw == 4 {
        Ok(FrameRate::Eight)
    } else if raw == 5 {
        Ok(FrameRate::Sixteen)
    } else if raw == 6 {
        Ok(FrameRate::ThirtyTwo)
    } else if raw == 7 {
        Ok(FrameRate::SixtyFour)
    } else {
        Err(())
    }
}

/// Refresh rate in half-hertz steps: frames per second times two.
pub open spec fn spec_half_hz(fr: FrameRate) -> u16 {
    match fr {
        FrameRate::Half => 1,
        FrameRate::One => 2,
        FrameRate::Two => 4,
        FrameRate::Four => 8,
        FrameRate::Eight => 16,
        FrameRate::Sixteen => 32,
        FrameRate::ThirtyTwo => 64,
        FrameRate::SixtyFour => 128,
    }
}

impl FrameRate {
    /// Frames per second times two (so that half a hertz is a whole number).
    pub fn half_hz(self) -> (r: u16)
        ensures
            r == spec_half_hz(self),
    {
        match self {
            FrameRate::Half => 1,
            FrameRate::One => 2,
            FrameRate::Two => 4,
            FrameRate::Four => 8,
            FrameRate::Eight => 16,
            FrameRate::Sixteen => 32,
            FrameRate::ThirtyTwo => 64,
            FrameRate::SixtyFour => 128,
        }
    }
}

impl From<FrameRate> for u16 {
    fn from(fr: FrameRate) -> (r: u16) {
        match fr {
            FrameRate::Half => 0,
            FrameRate::One => 1,
            FrameRate::Two => 2,
            FrameRate::Four => 3,
            FrameRate::Eight => 4,
            FrameRate::Sixteen => 5,
            FrameRate::ThirtyTwo => 6,
            FrameRate::SixtyFour => 7,
        }
    }
}

impl vstd::std_specs::convert::FromSpecImpl<FrameRate> for u16 {
    open spec fn obeys_from_spec() -> bool {
        true
    }

    open spec fn from_spec(fr: FrameRate) -> u16 {
        rate_code(fr)
    }
}

impl TryFrom<u16> for FrameRate {
    type Error = ();

    fn try_from(raw: u16) -> (r: Result<FrameRate, ()>) {
        match raw {
            0 => Ok(FrameRate::Half),
            1 => Ok(FrameRate::One),
            2 => Ok(FrameRate::Two),
            3 => Ok(FrameRate::Four),
            4 => Ok(FrameRate::Eight),
            5 => Ok(FrameRate::Sixteen),
            6 => Ok(FrameRate::ThirtyTwo),
            7 => Ok(FrameRate::SixtyFour),
            _ => Err(()),
        }
    }
}

impl vstd::std_specs::convert::TryFromSpecImpl<u16> for FrameRate {
    open spec fn obeys_try_from_spec() -> bool {
        true
    }

    open spec fn try_from_spec(raw: u16) -> Result<FrameRate, ()> {
        rate_of_code(raw)
    }
}

/// Reading back the code of a rate gives the rate: the conversion to a code
/// and the conversion from a code undo each other.
pub proof fn lemma_rate_code_round_trip(fr: FrameRate)
    ensures
        rate_of_code(rate_code(fr)) == Ok::<FrameRate, ()>(fr),
        rate_code(fr) < 8,
{
}

/// Exactly the codes 0 to 7 name a rate, and each names the rate whose code it is.
pub proof fn lemma_code_rate_round_trip(raw: u16)
    ensures
        rate_of_code(raw) is Ok <==> raw < 8,
        rate_of_code(raw) matches Ok(fr) ==> rate_code(fr) == raw,
{
}

/// Each step up the rate codes doubles the frame rate.
pub proof fn lemma_half_hz_doubles(fr: FrameRate)
    ensures
        spec_half_hz(fr) == vstd::arithmetic::power2::pow2(rate_code(fr) as nat),
{
    vstd::arithmetic::power2::lemma2_to64();
}

} // verus!
