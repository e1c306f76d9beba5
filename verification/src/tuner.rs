//! Tuner-type classification and the sampling-mode enumeration.

use crate::error::Error;
use vstd::prelude::*;

verus! {

/// The closed set of tuner chips a device may carry.
#[derive(Clone, Copy, Debug, PartialEq, Eq, Structural)]
pub enum RTLSDRTuner {
    Unknown,
    E4000,
    FC0012,
    FC0013,
    FC2580,
    R820T,
    R828D,
}

/// The direct-sampling configurations of the receiver.
#[derive(Clone, Copy, Debug, PartialEq, Eq, Structural)]
pub enum SamplingMode {
    Disabled,
    IADC,
    QADC,
    Error,
}

/// The classification of a native tuner-type code: codes 0 through 6 map
/// to the tuner variants in order, and every other code is a
/// classification error (never silently coerced to `Unknown`).
pub open spec fn spec_tuner_of(value: int) -> Result<RTLSDRTuner, Error> {
    if value == 0 {
        Ok(RTLSDRTuner::Unknown)
    } else if value == 1 {
        Ok(RTLSDRTuner::E4000)
    } else if value == 2 {
        Ok(RTLSDRTuner::FC0012)
    } else if value == 3 {
        Ok(RTLSDRTuner::FC0013)
    } else if value == 4 {
        Ok(RTLSDRTuner::FC2580)
    } else if value == 5 {
        Ok(RTLSDRTuner::R820T)
    } else if value == 6 {
        Ok(RTLSDRTuner::R828D)
    } else {
        Err(Error::Unknown)
    }
}

impl RTLSDRTuner {
    /// Classify a native tuner-type code. An unrecognized code fails with
    /// `Error::Unknown` rather than mapping to the `Unknown` variant.
    pub fn try_from(value: i32) -> (r: Result<RTLSDRTuner, Error>)
        ensures
            r == spec_tuner_of(value as int),
            r is Ok <==> 0 <= value <= 6,
            !(0 <= value <= 6) ==> r == Err::<RTLSDRTuner, Error>(Error::Unknown),
    {
        match value {
            0 => Ok(RTLSDRTuner::Unknown),
            1 => Ok(RTLSDRTuner::E4000),
            2 => Ok(RTLSDRTuner::FC0012),
            3 => Ok(RTLSDRTuner::FC0013),
            4 => Ok(RTLSDRTuner::FC2580),
            5 => Ok(RTLSDRTuner::R820T),
            6 => Ok(RTLSDRTuner::R828D),
            _ => Err(Error::Unknown),
        }
    }
}

} // verus!
