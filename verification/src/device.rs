//! The handle-lifetime state machine and the per-operation status-code
//! policy of the device wrapper.
//!
//! The native driver reports every outcome as a C integer, under two
//! sign conventions: setters report success as exactly zero, while
//! getters report a non-negative value that is itself the result. The
//! caller performs the native call and hands the raw outcome (the status
//! code, and any values the call produced) to the methods here, which
//! interpret it under the released-flag guard: once a handle is
//! released, every operation fails deterministically with the no-device
//! error, and the native handle is never to be touched again.

use crate::error::Error;
use crate::error::spec_from_status;
use crate::hw_info::HwInfo;
use crate::tuner::RTLSDRTuner;
use crate::tuner::spec_tuner_of;
use crate::utils::EEPROM_SIZE;
use crate::utils::header_ok;
use crate::utils::hw_fields_ok;
use crate::utils::hw_image;
use crate::utils::hw_strings_fit;
use crate::utils::parse_hw_info;
use crate::utils::serialize_hw_info;
use crate::utils::strings_ok;
use vstd::prelude::*;

verus! {

/// Zero-success policy: the setters (frequencies, gain, gain mode,
/// bandwidth, IF gain, sample rate, test mode, AGC, direct sampling,
/// offset tuning), buffer reset, the synchronous read and the
/// asynchronous start/wait/cancel calls all report success as exactly
/// zero; any other status is the mapped error.
pub open spec fn spec_status_unit(released: bool, status: int) -> Result<(), Error> {
    if released {
        Err(Error::NoDevice)
    } else if status == 0 {
        Ok(())
    } else {
        Err(spec_from_status(status))
    }
}

/// Non-negative-success policy of the EEPROM transfers: the raw read and
/// write report success as any non-negative status.
pub open spec fn spec_nonneg_unit(released: bool, status: int) -> Result<(), Error> {
    if released {
        Err(Error::NoDevice)
    } else if status >= 0 {
        Ok(())
    } else {
        Err(spec_from_status(status))
    }
}

/// Non-negative-is-value policy of the signed getters (frequency
/// correction, tuner gain): the magnitude of a non-negative status is
/// the measured value.
pub open spec fn spec_value_status(released: bool, status: int) -> Result<i32, Error> {
    if released {
        Err(Error::NoDevice)
    } else if status >= 0 {
        Ok(status as i32)
    } else {
        Err(spec_from_status(status))
    }
}

/// Non-negative-is-value policy of the unsigned getters (center
/// frequency, sample rate).
pub open spec fn spec_value_status_u32(released: bool, status: int) -> Result<u32, Error> {
    if released {
        Err(Error::NoDevice)
    } else if status >= 0 {
        Ok(status as u32)
    } else {
        Err(spec_from_status(status))
    }
}

/// Non-negative-is-flag policy of the boolean getters (direct sampling,
/// offset tuning): zero means off, any other non-negative value on.
pub open spec fn spec_flag_status(released: bool, status: int) -> Result<bool, Error> {
    if released {
        Err(Error::NoDevice)
    } else if status >= 0 {
        Ok(status != 0)
    } else {
        Err(spec_from_status(status))
    }
}

/// First phase of the gain-list protocol: the count query must return a
/// strictly positive number of gain steps; zero or a negative status
/// fails the whole operation before any fill is attempted.
pub open spec fn spec_gains_count(released: bool, status: int) -> Result<usize, Error> {
    if released {
        Err(Error::NoDevice)
    } else if status <= 0 {
        Err(spec_from_status(status))
    } else {
        Ok(status as usize)
    }
}

/// Second phase of the gain-list protocol: the fill query must itself
/// return a strictly positive status, even though the count phase
/// already succeeded; only then is the filled list the result.
pub open spec fn spec_gains_fill(released: bool, gains: Seq<i32>, status: int) -> Result<
    Seq<i32>,
    Error,
> {
    if released {
        Err(Error::NoDevice)
    } else if status <= 0 {
        Err(spec_from_status(status))
    } else {
        Ok(gains)
    }
}

/// The wrapper's own state for one device handle: whether the handle has
/// been released. The opaque native handle itself lives with the caller;
/// every operation's outcome is handed to the methods here.
pub struct Device {
    released: bool,
}

impl Device {
    /// Whether the handle has been released.
    pub closed spec fn is_released(self) -> bool {
        self.released
    }

    /// The outcome of opening a device: a zero status yields an owned,
    /// unreleased wrapper; any other status is the mapped error.
    pub fn new(status: i32) -> (r: Result<Device, Error>)
        ensures
            status == 0 ==> (r matches Ok(d) && !d.is_released()),
            status != 0 ==> r == Err::<Device, Error>(spec_from_status(status as int)),
    {
        if status == 0 {
            Ok(Device { released: false })
        } else {
            Err(Error::from(status))
        }
    }

    /// Whether operations may still be issued on the handle.
    pub fn is_open(&self) -> (b: bool)
        ensures
            b == !self.is_released(),
    {
        !self.released
    }

    /// Mark the handle released. Returns whether the native close call
    /// is now owed: true on the first close, false on any later one, so
    /// the native handle is released at most once however often close is
    /// requested.
    pub fn close(&mut self) -> (call_native: bool)
        ensures
            final(self).is_released(),
            call_native == !old(self).is_released(),
    {
        let was_open = !self.released;
        self.released = true;
        was_open
    }

    /// The outcome of the native close call itself, which reports
    /// success as zero.
    pub fn close_status(status: i32) -> (r: Result<(), Error>)
        ensures
            status == 0 ==> r == Ok::<(), Error>(()),
            status != 0 ==> r == Err::<(), Error>(spec_from_status(status as int)),
    {
        if status == 0 {
            Ok(())
        } else {
            Err(Error::from(status))
        }
    }

    /// Interpret a zero-success status under the released-flag guard.
    pub fn confirm_status(&self, status: i32) -> (r: Result<(), Error>)
        ensures
            r == spec_status_unit(self.is_released(), status as int),
    {
        if self.released {
            Err(Error::NoDevice)
        } else if status == 0 {
            Ok(())
        } else {
            Err(Error::from(status))
        }
    }

    /// Interpret the status of a raw EEPROM write, which reports success
    /// as any non-negative value.
    pub fn write_eeprom(&self, status: i32) -> (r: Result<(), Error>)
        ensures
            r == spec_nonneg_unit(self.is_released(), status as int),
    {
        if self.released {
            Err(Error::NoDevice)
        } else if status >= 0 {
            Ok(())
        } else {
            Err(Error::from(status))
        }
    }

    /// Interpret the outcome of a raw EEPROM read: on a non-negative
    /// status the filled buffer is the result, unchanged.
    pub fn read_eeprom(&self, data: Vec<u8>, status: i32) -> (r: Result<Vec<u8>, Error>)
        ensures
            r matches Ok(d) ==> spec_nonneg_unit(self.is_released(), status as int) == Ok::<
                (),
                Error,
            >(()) && d == data,
            r matches Err(e) ==> spec_nonneg_unit(self.is_released(), status as int) == Err::<
                (),
                Error,
            >(e),
    {
        if self.released {
            Err(Error::NoDevice)
        } else if status >= 0 {
            Ok(data)
        } else {
            Err(Error::from(status))
        }
    }

    /// Interpret a signed getter's status: its non-negative magnitude is
    /// the value.
    pub fn value_status(&self, status: i32) -> (r: Result<i32, Error>)
        ensures
            r == spec_value_status(self.is_released(), status as int),
    {
        if self.released {
            Err(Error::NoDevice)
        } else if status >= 0 {
            Ok(status)
        } else {
            Err(Error::from(status))
        }
    }

    /// Interpret an unsigned getter's status: its non-negative magnitude
    /// is the value.
    pub fn value_status_u32(&self, status: i32) -> (r: Result<u32, Error>)
        ensures
            r == spec_value_status_u32(self.is_released(), status as int),
    {
        if self.released {
            Err(Error::NoDevice)
        } else if status >= 0 {
            Ok(status as u32)
        } else {
            Err(Error::from(status))
        }
    }

    /// Interpret a boolean getter's status: zero is off, any other
    /// non-negative value on.
    pub fn flag_status(&self, status: i32) -> (r: Result<bool, Error>)
        ensures
            r == spec_flag_status(self.is_released(), status as int),
    {
        if self.released {
            Err(Error::NoDevice)
        } else if status >= 0 {
            Ok(status != 0)
        } else {
            Err(Error::from(status))
        }
    }

    /// Interpret the outcome of the crystal-frequency getter: on a zero
    /// status the two out-values are the pair of frequencies.
    pub fn get_xtal_freq(&self, status: i32, rtl_freq_hz: u32, tuner_freq_hz: u32) -> (r: Result<
        (u32, u32),
        Error,
    >)
        ensures
            r matches Ok(t) ==> spec_status_unit(self.is_released(), status as int) == Ok::<
                (),
                Error,
            >(()) && t == (rtl_freq_hz, tuner_freq_hz),
            r matches Err(e) ==> spec_status_unit(self.is_released(), status as int) == Err::<
                (),
                Error,
            >(e),
    {
        if self.released {
            Err(Error::NoDevice)
        } else if status == 0 {
            Ok((rtl_freq_hz, tuner_freq_hz))
        } else {
            Err(Error::from(status))
        }
    }

    /// Interpret the outcome of a USB-strings query: on a zero status
    /// the three decoded strings are the result, unchanged.
    pub fn get_usb_strings(&self, status: i32, manufact: String, product: String, serial: String)
        -> (r: Result<(String, String, String), Error>)
        ensures
            r matches Ok(t) ==> spec_status_unit(self.is_released(), status as int) == Ok::<
                (),
                Error,
            >(()) && t.0@ == manufact@ && t.1@ == product@ && t.2@ == serial@,
            r matches Err(e) ==> spec_status_unit(self.is_released(), status as int) == Err::<
                (),
                Error,
            >(e),
    {
        if self.released {
            Err(Error::NoDevice)
        } else if status == 0 {
            Ok((manufact, product, serial))
        } else {
            Err(Error::from(status))
        }
    }

    /// Interpret the outcome of a synchronous bulk read: on a zero
    /// status the filled sample buffer is the result, unchanged.
    pub fn read_sync(&self, buffer: Vec<u8>, status: i32) -> (r: Result<Vec<u8>, Error>)
        ensures
            r matches Ok(b) ==> spec_status_unit(self.is_released(), status as int) == Ok::<
                (),
                Error,
            >(()) && b == buffer,
            r matches Err(e) ==> spec_status_unit(self.is_released(), status as int) == Err::<
                (),
                Error,
            >(e),
    {
        if self.released {
            Err(Error::NoDevice)
        } else if status == 0 {
            Ok(buffer)
        } else {
            Err(Error::from(status))
        }
    }

    /// Classify the tuner-type code the driver reported. An unrecognized
    /// code fails with `Error::Unknown` rather than mapping to the
    /// `Unknown` variant.
    pub fn get_tuner_type(&self, code: i32) -> (r: Result<RTLSDRTuner, Error>)
        ensures
            self.is_released() ==> r == Err::<RTLSDRTuner, Error>(Error::NoDevice),
            !self.is_released() ==> r == spec_tuner_of(code as int),
    {
        if self.released {
            Err(Error::NoDevice)
        } else {
            RTLSDRTuner::try_from(code)
        }
    }

    /// First phase of gain-list retrieval: how many gain steps the
    /// driver reports. A non-positive count fails the operation; the
    /// fill phase must not be attempted.
    pub fn get_tuner_gains_count(&self, status: i32) -> (r: Result<usize, Error>)
        ensures
            r == spec_gains_count(self.is_released(), status as int),
    {
        if self.released {
            Err(Error::NoDevice)
        } else if status <= 0 {
            Err(Error::from(status))
        } else {
            Ok(status as usize)
        }
    }

    /// Second phase of gain-list retrieval: the filled list, accepted
    /// only when the fill query itself reported a positive status — a
    /// known count does not excuse a failed fill.
    pub fn get_tuner_gains(&self, gains: Vec<i32>, status: i32) -> (r: Result<Vec<i32>, Error>)
        ensures
            r matches Ok(g) ==> spec_gains_fill(self.is_released(), gains@, status as int) == Ok::<
                Seq<i32>,
                Error,
            >(g@),
            r matches Err(e) ==> spec_gains_fill(self.is_released(), gains@, status as int)
                == Err::<Seq<i32>, Error>(e),
    {
        if self.released {
            Err(Error::NoDevice)
        } else if status <= 0 {
            Err(Error::from(status))
        } else {
            Ok(gains)
        }
    }

    /// The interpretation of a serial-number lookup, which needs no open
    /// handle: a non-negative status is the device index, a negative one
    /// the mapped error.
    pub fn get_index_by_serial(status: i32) -> (r: Result<i32, Error>)
        ensures
            status >= 0 ==> r == Ok::<i32, Error>(status),
            status < 0 ==> r == Err::<i32, Error>(spec_from_status(status as int)),
    {
        if status >= 0 {
            Ok(status)
        } else {
            Err(Error::from(status))
        }
    }

    /// Decode the hardware-info record from a raw EEPROM read: `status`
    /// is the read's outcome (non-negative means success) and `data` the
    /// buffer it filled. On success the record's fields are exactly
    /// those encoded in the image; a malformed image never yields a
    /// partial record.
    pub fn get_hw_info(&self, status: i32, data: Vec<u8>) -> (r: Result<HwInfo, Error>)
        ensures
            self.is_released() ==> r == Err::<HwInfo, Error>(Error::NoDevice),
            !self.is_released() && status < 0 ==> r == Err::<HwInfo, Error>(
                spec_from_status(status as int),
            ),
            !self.is_released() && status >= 0 ==> {
                &&& (r is Ok <==> header_ok(data@) && strings_ok(data@))
                &&& (r matches Ok(info) ==> hw_fields_ok(data@, info))
                &&& (!header_ok(data@) ==> r == Err::<HwInfo, Error>(Error::NoValidEEPROMHeader))
                &&& (header_ok(data@) && !strings_ok(data@) ==> r == Err::<HwInfo, Error>(
                    Error::StringDescriptorInvalid,
                ))
            },
    {
        if self.released {
            return Err(Error::NoDevice);
        }
        if status < 0 {
            return Err(Error::from(status));
        }
        parse_hw_info(data.as_slice())
    }

    /// Encode a hardware-info record as the fresh 256-byte EEPROM image
    /// that the caller then writes to the device (its write status goes
    /// through [`Device::write_eeprom`]). Fails with `StringValueTooLong`
    /// when a string does not fit a descriptor, returning no buffer at
    /// all.
    pub fn set_hw_info(&self, info: &HwInfo) -> (r: Result<Vec<u8>, Error>)
        ensures
            self.is_released() ==> r == Err::<Vec<u8>, Error>(Error::NoDevice),
            !self.is_released() ==> {
                &&& (r is Ok <==> hw_strings_fit(*info))
                &&& (r matches Ok(d) ==> d@ == hw_image(*info) && d@.len() == EEPROM_SIZE as int)
                &&& (!hw_strings_fit(*info) ==> r == Err::<Vec<u8>, Error>(
                    Error::StringValueTooLong,
                ))
            },
    {
        if self.released {
            return Err(Error::NoDevice);
        }
        serialize_hw_info(info)
    }
}

/// Deterministic rejection after release: once the handle is released,
/// every status interpreter fails with the no-device error, whatever
/// status or values the caller supplies, so no operation can reach the
/// native handle again.
pub proof fn lemma_released_rejects(status: int, gains: Seq<i32>)
    ensures
        spec_status_unit(true, status) == Err::<(), Error>(Error::NoDevice),
        spec_nonneg_unit(true, status) == Err::<(), Error>(Error::NoDevice),
        spec_value_status(true, status) == Err::<i32, Error>(Error::NoDevice),
        spec_value_status_u32(true, status) == Err::<u32, Error>(Error::NoDevice),
        spec_flag_status(true, status) == Err::<bool, Error>(Error::NoDevice),
        spec_gains_count(true, status) == Err::<usize, Error>(Error::NoDevice),
        spec_gains_fill(true, gains, status) == Err::<Seq<i32>, Error>(Error::NoDevice),
{
}

/// The gain-list protocol is honestly two-phase: a non-positive count
/// fails the operation with the count's own mapped error before any fill
/// is attempted, and a positive count does not excuse a failed fill —
/// the fill's non-positive status fails the operation with the fill's
/// error. Only two positive statuses deliver the list.
pub proof fn lemma_gain_list_two_phase(gains: Seq<i32>, count_status: int, fill_status: int)
    ensures
        count_status <= 0 ==> spec_gains_count(false, count_status) == Err::<usize, Error>(
            spec_from_status(count_status),
        ),
        count_status > 0 && fill_status <= 0 ==> spec_gains_fill(false, gains, fill_status)
            == Err::<Seq<i32>, Error>(spec_from_status(fill_status)),
        count_status > 0 && fill_status > 0 ==> spec_gains_fill(false, gains, fill_status) == Ok::<
            Seq<i32>,
            Error,
        >(gains),
{
}

} // verus!
