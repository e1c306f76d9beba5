//! The EEPROM image codec: string descriptors and the hardware-info
//! record, over the fixed 256-byte configuration block.

use crate::error::Error;
use crate::hw_info::HwInfo;
use crate::utf16::utf16_decode;
use crate::utf16::utf16_decode_units;
use crate::utf16::utf16_encode;
use crate::utf16::utf16_encode_str;
use crate::utf16::utf16_valid;
use vstd::prelude::*;

verus! {

/// The longest string a descriptor may carry, in UTF-16 code units.
pub const MAX_STR_SIZE: usize = 35;

/// The byte offset of the first string descriptor in the image.
pub const STR_OFFSET_START: usize = 9;

/// The size of the whole EEPROM image in bytes.
pub const EEPROM_SIZE: usize = 256;

/// The little-endian byte serialization of a sequence of UTF-16 code
/// units: each unit contributes its low byte, then its high byte.
pub open spec fn units_to_le_bytes(u: Seq<u16>) -> Seq<u8> {
    Seq::new(
        2 * u.len(),
        |i: int|
            if i % 2 == 0 {
                (u[i / 2] % 256) as u8
            } else {
                (u[i / 2] / 256) as u8
            },
    )
}

/// The UTF-16 code units read from little-endian byte pairs; a trailing
/// odd byte is ignored.
pub open spec fn le_bytes_to_units(b: Seq<u8>) -> Seq<u16> {
    Seq::new(b.len() / 2, |i: int| (b[2 * i] + 256 * b[2 * i + 1]) as u16)
}

/// Serializing code units to little-endian bytes and reading them back
/// yields the units unchanged.
pub proof fn lemma_units_round_trip(u: Seq<u16>)
    ensures
        units_to_le_bytes(u).len() == 2 * u.len(),
        le_bytes_to_units(units_to_le_bytes(u)) == u,
{
    let b = units_to_le_bytes(u);
    assert forall|i: int| 0 <= i < u.len() implies le_bytes_to_units(b)[i] == u[i] by {
        assert(b[2 * i] == (u[i] % 256) as u8);
        assert(b[2 * i + 1] == (u[i] / 256) as u8);
        vstd::arithmetic::div_mod::lemma_fundamental_div_mod(u[i] as int, 256);
    }
    assert(le_bytes_to_units(b) =~= u);
}

/// The declared total length of the descriptor starting at `pos`: its
/// length byte, which counts the two prefix bytes as well as the payload.
pub open spec fn desc_end(data: Seq<u8>, pos: int) -> int {
    pos + data[pos]
}

/// The UTF-16 code units carried by the descriptor starting at `pos`.
pub open spec fn desc_units_at(data: Seq<u8>, pos: int) -> Seq<u16> {
    le_bytes_to_units(data.subrange(pos + 2, pos + data[pos]))
}

/// Whether a well-formed string descriptor starts at `pos`: two prefix
/// bytes fit, the declared length is at least 2 and stays inside the
/// buffer, the type byte is 0x03, and the payload is an even number of
/// bytes forming valid UTF-16.
pub open spec fn desc_ok_at(data: Seq<u8>, pos: int) -> bool {
    &&& 0 <= pos
    &&& pos + 2 <= data.len()
    &&& 2 <= data[pos]
    &&& pos + data[pos] <= data.len()
    &&& data[pos + 1] == 0x03
    &&& (data[pos] - 2) % 2 == 0
    &&& utf16_valid(desc_units_at(data, pos))
}

/// The characters carried by the descriptor starting at `pos`.
pub open spec fn desc_chars_at(data: Seq<u8>, pos: int) -> Seq<char> {
    utf16_decode(desc_units_at(data, pos))
}

/// Whether the image holds three consecutive well-formed string
/// descriptors starting at the fixed string-table offset.
pub open spec fn strings_ok(data: Seq<u8>) -> bool {
    let p0 = STR_OFFSET_START as int;
    let p1 = desc_end(data, p0);
    let p2 = desc_end(data, p1);
    &&& desc_ok_at(data, p0)
    &&& desc_ok_at(data, p1)
    &&& desc_ok_at(data, p2)
}

/// Read one string descriptor at `pos`: its characters and the position
/// just past it.
fn parse_one_descriptor(data: &[u8], pos: usize) -> (r: Result<(String, usize), Error>)
    ensures
        r is Ok <==> desc_ok_at(data@, pos as int),
        r matches Ok(t) ==> t.0@ == desc_chars_at(data@, pos as int) && t.1 as int == desc_end(
            data@,
            pos as int,
        ),
        r is Err ==> r == Err::<(String, usize), Error>(Error::StringDescriptorInvalid),
{
    if data.len() < 2 || pos > data.len() - 2 {
        return Err(Error::StringDescriptorInvalid);
    }
    let length = data[pos] as usize;
    if length < 2 || length > data.len() - pos {
        return Err(Error::StringDescriptorInvalid);
    }
    if data[pos + 1] != 0x03 {
        return Err(Error::StringDescriptorInvalid);
    }
    if (length - 2) % 2 != 0 {
        return Err(Error::StringDescriptorInvalid);
    }
    let count = (length - 2) / 2;
    proof {
        vstd::arithmetic::div_mod::lemma_fundamental_div_mod((length - 2) as int, 2);
    }
    let mut units: Vec<u16> = Vec::new();
    let mut j: usize = 0;
    while j < count
        invariant
            count == (length - 2) / 2,
            2 * count == length - 2,
            2 <= length <= data@.len() - pos,
            data@.len() <= usize::MAX,
            (length - 2) % 2 == 0,
            j <= count,
            units@.len() == j,
            forall|k: int|
                0 <= k < j ==> units@[k] == (data@[pos + 2 + 2 * k] + 256 * data@[pos + 3 + 2 * k]) as u16,
        decreases count - j,
    {
        let lo = data[pos + 2 + 2 * j];
        let hi = data[pos + 3 + 2 * j];
        units.push(lo as u16 + 256 * (hi as u16));
        j = j + 1;
    }
    proof {
        let sub = data@.subrange(pos + 2, pos as int + data@[pos as int]);
        assert(sub.len() == length - 2);
        assert forall|k: int| 0 <= k < count implies le_bytes_to_units(sub)[k] == units@[k] by {
            assert(sub[2 * k] == data@[pos + 2 + 2 * k]);
            assert(sub[2 * k + 1] == data@[pos + 3 + 2 * k]);
        }
        assert(units@ =~= desc_units_at(data@, pos as int));
    }
    match utf16_decode_units(units.as_slice()) {
        Some(s) => Ok((s, pos + length)),
        None => Err(Error::StringDescriptorInvalid),
    }
}

/// Parse the three string descriptors of an EEPROM image, in order:
/// manufacturer, product, serial. Fails with `StringDescriptorInvalid`
/// exactly when the descriptor table is malformed.
pub fn parse_string_descriptors(data: &[u8]) -> (r: Result<(String, String, String), Error>)
    ensures
        r is Ok <==> strings_ok(data@),
        r matches Ok(t) ==> ({
            let p0 = STR_OFFSET_START as int;
            let p1 = desc_end(data@, p0);
            let p2 = desc_end(data@, p1);
            &&& t.0@ == desc_chars_at(data@, p0)
            &&& t.1@ == desc_chars_at(data@, p1)
            &&& t.2@ == desc_chars_at(data@, p2)
        }),
        r is Err ==> r == Err::<(String, String, String), Error>(Error::StringDescriptorInvalid),
{
    let (manufact, p1) = match parse_one_descriptor(data, STR_OFFSET_START) {
        Ok(t) => t,
        Err(e) => {
            return Err(e);
        },
    };
    let (product, p2) = match parse_one_descriptor(data, p1) {
        Ok(t) => t,
        Err(e) => {
            return Err(e);
        },
    };
    let (serial, _p3) = match parse_one_descriptor(data, p2) {
        Ok(t) => t,
        Err(e) => {
            return Err(e);
        },
    };
    Ok((manufact, product, serial))
}

/// The byte sequence with `patch` written into `data` starting at `pos`;
/// everything outside the patched range is unchanged.
pub open spec fn splice(data: Seq<u8>, pos: int, patch: Seq<u8>) -> Seq<u8> {
    data.take(pos) + patch + data.skip(pos + patch.len())
}

/// The encoded descriptor for a string: length byte (payload plus the
/// two prefix bytes), type byte 0x03, then the UTF-16LE payload.
pub open spec fn desc_bytes(s: Seq<char>) -> Seq<u8> {
    seq![(2 + 2 * utf16_encode(s).len()) as u8, 0x03u8] + units_to_le_bytes(utf16_encode(s))
}

/// The result of writing the descriptors for `strs` one after another
/// into `data` starting at `pos`: the final buffer and the outcome. A
/// string longer than the descriptor limit stops the write with
/// `StringValueTooLong`; one whose descriptor would run past the buffer
/// stops it with `StringDescriptorTooLong`. In either case the failing
/// string and everything after it leave the buffer untouched.
pub open spec fn write_strings(data: Seq<u8>, strs: Seq<Seq<char>>, pos: int) -> (Seq<u8>, Result<
    (),
    Error,
>)
    decreases strs.len(),
{
    if strs.len() == 0 {
        (data, Ok(()))
    } else {
        let len = 2 + 2 * utf16_encode(strs[0]).len();
        if len > 2 * MAX_STR_SIZE + 2 {
            (data, Err(Error::StringValueTooLong))
        } else if pos + len > data.len() {
            (data, Err(Error::StringDescriptorTooLong))
        } else {
            write_strings(splice(data, pos, desc_bytes(strs[0])), strs.skip(1), pos + len)
        }
    }
}

/// Write one string descriptor at `pos`, returning the position just past
/// it; on failure the buffer is unchanged.
fn write_one_descriptor(data: &mut Vec<u8>, pos: usize, s: &str) -> (r: Result<usize, Error>)
    ensures
        ({
            let len = 2 + 2 * utf16_encode(s@).len();
            if len > 2 * MAX_STR_SIZE + 2 {
                &&& final(data)@ == old(data)@
                &&& r == Err::<usize, Error>(Error::StringValueTooLong)
            } else if pos + len > old(data)@.len() {
                &&& final(data)@ == old(data)@
                &&& r == Err::<usize, Error>(Error::StringDescriptorTooLong)
            } else {
                &&& final(data)@ == splice(old(data)@, pos as int, desc_bytes(s@))
                &&& r == Ok::<usize, Error>((pos + len) as usize)
            }
        }),
{
    let units: Vec<u16> = utf16_encode_str(s);
    if units.len() > MAX_STR_SIZE {
        return Err(Error::StringValueTooLong);
    }
    let length = 2 * units.len() + 2;
    if pos > data.len() || length > data.len() - pos {
        return Err(Error::StringDescriptorTooLong);
    }
    let ghost data0 = data@;
    data[pos] = length as u8;
    data[pos + 1] = 0x03;
    let mut j: usize = 0;
    while j < units.len()
        invariant
            pos + length <= data0.len(),
            data0.len() <= usize::MAX,
            length == 2 * units@.len() + 2,
            units@.len() <= MAX_STR_SIZE,
            j <= units@.len(),
            data@.len() == data0.len(),
            forall|k: int| 0 <= k < pos ==> data@[k] == data0[k],
            forall|k: int| pos + length <= k < data0.len() ==> data@[k] == data0[k],
            forall|k: int| pos + 2 + 2 * j <= k < pos + length ==> data@[k] == data0[k],
            data@[pos as int] == length as u8,
            data@[pos + 1] == 0x03u8,
            forall|k: int|
                0 <= k < j ==> data@[pos + 2 + 2 * k] == (units@[k] % 256) as u8 && data@[pos + 3
                    + 2 * k] == (units@[k] / 256) as u8,
        decreases units@.len() - j,
    {
        let u = units[j];
        data[pos + 2 + 2 * j] = (u % 256) as u8;
        data[pos + 3 + 2 * j] = (u / 256) as u8;
        j = j + 1;
    }
    proof {
        let patch = desc_bytes(s@);
        assert(patch.len() == length);
        assert forall|k: int| 0 <= k < data0.len() implies data@[k] == splice(
            data0,
            pos as int,
            patch,
        )[k] by {
            if pos <= k < pos + length {
                let m = k - pos;
                assert(splice(data0, pos as int, patch)[k] == patch[m]);
                if m >= 2 {
                    let q = (m - 2) / 2;
                    vstd::arithmetic::div_mod::lemma_fundamental_div_mod(m - 2, 2);
                    assert(patch[m] == units_to_le_bytes(utf16_encode(s@))[m - 2]);
                    if (m - 2) % 2 == 0 {
                        assert(m == pos + 2 + 2 * q - pos);
                        assert(data@[pos + 2 + 2 * q] == (units@[q] % 256) as u8);
                    } else {
                        assert(data@[pos + 3 + 2 * q] == (units@[q] / 256) as u8);
                    }
                }
            }
        }
        assert(data@ =~= splice(data0, pos as int, patch));
    }
    Ok(pos + length)
}

/// Serialize the three descriptor strings of a hardware-info record into
/// the image at the fixed string-table offset, in manufacturer, product,
/// serial order. The buffer and the outcome are exactly those of
/// [`write_strings`] on the three character sequences.
pub fn serialize_string_descriptors(data: &mut Vec<u8>, info: &HwInfo) -> (r: Result<(), Error>)
    ensures
        ({
            let (d, res) = write_strings(
                old(data)@,
                seq![info.manufact@, info.product@, info.serial@],
                STR_OFFSET_START as int,
            );
            &&& final(data)@ == d
            &&& r == res
        }),
{
    let ghost strs: Seq<Seq<char>> = seq![info.manufact@, info.product@, info.serial@];
    let ghost strs1 = strs.skip(1);
    let ghost strs2 = strs1.skip(1);
    proof {
        assert(strs1 =~= seq![info.product@, info.serial@]);
        assert(strs2 =~= seq![info.serial@]);
        assert(strs2.skip(1) =~= Seq::<Seq<char>>::empty());
    }
    let ghost goal = write_strings(old(data)@, strs, STR_OFFSET_START as int);
    let p1 = match write_one_descriptor(data, STR_OFFSET_START, info.manufact.as_str()) {
        Ok(p) => p,
        Err(e) => {
            proof {
                assert(goal == (old(data)@, Err::<(), Error>(e)));
            }
            return Err(e);
        },
    };
    proof {
        assert(goal == write_strings(data@, strs1, p1 as int));
    }
    let ghost d1 = data@;
    let p2 = match write_one_descriptor(data, p1, info.product.as_str()) {
        Ok(p) => p,
        Err(e) => {
            proof {
                assert(goal == (d1, Err::<(), Error>(e)));
            }
            return Err(e);
        },
    };
    proof {
        assert(goal == write_strings(data@, strs2, p2 as int));
    }
    let ghost d2 = data@;
    match write_one_descriptor(data, p2, info.serial.as_str()) {
        Ok(p3) => {
            proof {
                assert(goal == write_strings(data@, strs2.skip(1), p3 as int));
                assert(goal == (data@, Ok::<(), Error>(())));
            }
            Ok(())
        },
        Err(e) => {
            proof {
                assert(goal == (d2, Err::<(), Error>(e)));
            }
            Err(e)
        },
    }
}

/// Whether the image begins with the two-byte magic header and is long
/// enough to reach the string table.
pub open spec fn header_ok(data: Seq<u8>) -> bool {
    &&& data.len() >= STR_OFFSET_START as int
    &&& data[0] == 0x28
    &&& data[1] == 0x32
}

/// Whether a record holds exactly the fields encoded in an image: the
/// little-endian IDs, the serial sentinel, the two flag bits, and the
/// three descriptor strings.
pub open spec fn hw_fields_ok(data: Seq<u8>, info: HwInfo) -> bool {
    let p0 = STR_OFFSET_START as int;
    let p1 = desc_end(data, p0);
    let p2 = desc_end(data, p1);
    &&& info.vendor_id == (data[2] + 256 * data[3]) as u16
    &&& info.product_id == (data[4] + 256 * data[5]) as u16
    &&& info.have_serial == (data[6] == 0xA5)
    &&& info.remote_wakeup == ((data[7] & 0x01) != 0)
    &&& info.enable_ir == ((data[7] & 0x02) != 0)
    &&& info.manufact@ == desc_chars_at(data, p0)
    &&& info.product@ == desc_chars_at(data, p1)
    &&& info.serial@ == desc_chars_at(data, p2)
}

/// Parse a raw EEPROM image into a hardware-info record. Fails with
/// `NoValidEEPROMHeader` when the magic header is missing, and with
/// `StringDescriptorInvalid` when the descriptor table is malformed; no
/// partial record is ever returned.
pub fn parse_hw_info(data: &[u8]) -> (r: Result<HwInfo, Error>)
    ensures
        r is Ok <==> header_ok(data@) && strings_ok(data@),
        r matches Ok(info) ==> hw_fields_ok(data@, info),
        !header_ok(data@) ==> r == Err::<HwInfo, Error>(Error::NoValidEEPROMHeader),
        header_ok(data@) && !strings_ok(data@) ==> r == Err::<HwInfo, Error>(
            Error::StringDescriptorInvalid,
        ),
{
    if data.len() < STR_OFFSET_START {
        return Err(Error::NoValidEEPROMHeader);
    }
    if data[0] != 0x28 || data[1] != 0x32 {
        return Err(Error::NoValidEEPROMHeader);
    }
    let vendor_id: u16 = data[2] as u16 + 256 * (data[3] as u16);
    let product_id: u16 = data[4] as u16 + 256 * (data[5] as u16);
    let have_serial = data[6] == 0xA5;
    let remote_wakeup = (data[7] & 0x01) != 0;
    let enable_ir = (data[7] & 0x02) != 0;
    let (manufact, product, serial) = match parse_string_descriptors(data) {
        Ok(t) => t,
        Err(e) => {
            return Err(e);
        },
    };
    Ok(
        HwInfo {
            vendor_id,
            product_id,
            manufact,
            product,
            serial,
            have_serial,
            enable_ir,
            remote_wakeup,
        },
    )
}

/// The flags byte of an image: bit 0 is remote wakeup, bit 1 is the
/// infrared-receiver enable.
pub open spec fn hw_flags_byte(info: HwInfo) -> u8 {
    ((if info.remote_wakeup {
        1int
    } else {
        0int
    }) + (if info.enable_ir {
        2int
    } else {
        0int
    })) as u8
}

/// The fresh 256-byte image with the header fields of a record filled in
/// and the string table still blank.
pub open spec fn hw_header_image(info: HwInfo) -> Seq<u8> {
    Seq::new(
        EEPROM_SIZE as nat,
        |i: int|
            if i == 0 {
                0x28u8
            } else if i == 1 {
                0x32u8
            } else if i == 2 {
                (info.vendor_id % 256) as u8
            } else if i == 3 {
                (info.vendor_id / 256) as u8
            } else if i == 4 {
                (info.product_id % 256) as u8
            } else if i == 5 {
                (info.product_id / 256) as u8
            } else if i == 6 {
                if info.have_serial {
                    0xA5u8
                } else {
                    0u8
                }
            } else if i == 7 {
                hw_flags_byte(info)
            } else {
                0u8
            },
    )
}

/// Whether each of the three strings of a record fits a descriptor.
pub open spec fn hw_strings_fit(info: HwInfo) -> bool {
    &&& utf16_encode(info.manufact@).len() <= MAX_STR_SIZE as int
    &&& utf16_encode(info.product@).len() <= MAX_STR_SIZE as int
    &&& utf16_encode(info.serial@).len() <= MAX_STR_SIZE as int
}

/// The full serialized image of a record: the header image with the three
/// descriptors written into the string table.
pub open spec fn hw_image(info: HwInfo) -> Seq<u8> {
    write_strings(
        hw_header_image(info),
        seq![info.manufact@, info.product@, info.serial@],
        STR_OFFSET_START as int,
    ).0
}

/// Serialize a hardware-info record into a fresh 256-byte EEPROM image.
/// Succeeds exactly when each string fits a descriptor; otherwise fails
/// with `StringValueTooLong` and returns no buffer at all.
pub fn serialize_hw_info(info: &HwInfo) -> (r: Result<Vec<u8>, Error>)
    ensures
        r is Ok <==> hw_strings_fit(*info),
        r matches Ok(d) ==> d@ == hw_image(*info) && d@.len() == EEPROM_SIZE as int,
        r is Err ==> r == Err::<Vec<u8>, Error>(Error::StringValueTooLong),
{
    let mut data: Vec<u8> = Vec::new();
    let mut i: usize = 0;
    while i < EEPROM_SIZE
        invariant
            data@.len() == i,
            i <= EEPROM_SIZE,
            forall|k: int| 0 <= k < i ==> data@[k] == 0u8,
        decreases EEPROM_SIZE - i,
    {
        data.push(0u8);
        i = i + 1;
    }
    data[0] = 0x28;
    data[1] = 0x32;
    data[2] = (info.vendor_id % 256) as u8;
    data[3] = (info.vendor_id / 256) as u8;
    data[4] = (info.product_id % 256) as u8;
    data[5] = (info.product_id / 256) as u8;
    data[6] = if info.have_serial {
        0xA5
    } else {
        0x00
    };
    let flags: u8 = (if info.remote_wakeup {
        1u8
    } else {
        0u8
    }) + (if info.enable_ir {
        2u8
    } else {
        0u8
    });
    data[7] = flags;
    proof {
        assert(data@ =~= hw_header_image(*info));
    }
    let ghost strs: Seq<Seq<char>> = seq![info.manufact@, info.product@, info.serial@];
    match serialize_string_descriptors(&mut data, info) {
        Ok(()) => {
            proof {
                if !hw_strings_fit(*info) {
                    lemma_write_strings_some_too_long(
                        hw_header_image(*info),
                        strs,
                        STR_OFFSET_START as int,
                    );
                }
                lemma_write_strings_fit(hw_header_image(*info), strs, STR_OFFSET_START as int);
            }
            Ok(data)
        },
        Err(e) => {
            proof {
                if hw_strings_fit(*info) {
                    lemma_write_strings_fit(
                        hw_header_image(*info),
                        strs,
                        STR_OFFSET_START as int,
                    );
                }
                if !hw_strings_fit(*info) {
                    lemma_write_strings_some_too_long(
                        hw_header_image(*info),
                        strs,
                        STR_OFFSET_START as int,
                    );
                }
            }
            Err(e)
        },
    }
}

/// When every string fits a descriptor and the buffer has room for all
/// of them, writing the string table succeeds and keeps the buffer
/// length.
pub proof fn lemma_write_strings_fit(data: Seq<u8>, strs: Seq<Seq<char>>, pos: int)
    requires
        0 <= pos,
        forall|k: int|
            0 <= k < strs.len() ==> utf16_encode(#[trigger] strs[k]).len() <= MAX_STR_SIZE as int,
        pos + strs.len() * (2 * MAX_STR_SIZE as int + 2) <= data.len(),
    ensures
        write_strings(data, strs, pos).1 == Ok::<(), Error>(()),
        write_strings(data, strs, pos).0.len() == data.len(),
    decreases strs.len(),
{
    if strs.len() > 0 {
        let len = 2 + 2 * utf16_encode(strs[0]).len();
        assert(utf16_encode(strs[0]).len() <= MAX_STR_SIZE as int);
        assert(strs.len() * (2 * MAX_STR_SIZE as int + 2) == (2 * MAX_STR_SIZE as int + 2) + (
        strs.len() - 1) * (2 * MAX_STR_SIZE as int + 2)) by (nonlinear_arith);
        let d1 = splice(data, pos, desc_bytes(strs[0]));
        assert(desc_bytes(strs[0]).len() == len);
        assert(d1.len() == data.len());
        assert forall|k: int| 0 <= k < strs.skip(1).len() implies utf16_encode(
            #[trigger] strs.skip(1)[k],
        ).len() <= MAX_STR_SIZE as int by {
            assert(strs.skip(1)[k] == strs[k + 1]);
        }
        assert((strs.len() - 1) * (2 * MAX_STR_SIZE as int + 2) == strs.skip(1).len() * (2
            * MAX_STR_SIZE as int + 2));
        lemma_write_strings_fit(d1, strs.skip(1), pos + len);
    }
}

/// When some string does not fit a descriptor but the buffer has room
/// for every descriptor-sized write, writing the string table fails with
/// the too-long error.
pub proof fn lemma_write_strings_some_too_long(data: Seq<u8>, strs: Seq<Seq<char>>, pos: int)
    requires
        0 <= pos,
        pos + strs.len() * (2 * MAX_STR_SIZE as int + 2) <= data.len(),
        exists|k: int|
            0 <= k < strs.len() && utf16_encode(#[trigger] strs[k]).len() > MAX_STR_SIZE as int,
    ensures
        write_strings(data, strs, pos).1 == Err::<(), Error>(Error::StringValueTooLong),
    decreases strs.len(),
{
    let len = 2 + 2 * utf16_encode(strs[0]).len();
    if len > 2 * MAX_STR_SIZE as int + 2 {
    } else {
        let w = choose|k: int|
            0 <= k < strs.len() && utf16_encode(#[trigger] strs[k]).len() > MAX_STR_SIZE as int;
        assert(w >= 1);
        assert(strs.len() * (2 * MAX_STR_SIZE as int + 2) == (2 * MAX_STR_SIZE as int + 2) + (
        strs.len() - 1) * (2 * MAX_STR_SIZE as int + 2)) by (nonlinear_arith);
        let d1 = splice(data, pos, desc_bytes(strs[0]));
        assert(desc_bytes(strs[0]).len() == len);
        assert(d1.len() == data.len());
        assert((strs.len() - 1) * (2 * MAX_STR_SIZE as int + 2) == strs.skip(1).len() * (2
            * MAX_STR_SIZE as int + 2));
        assert(strs.skip(1)[w - 1] == strs[w]);
        assert(0 <= w - 1 < strs.skip(1).len() && utf16_encode(strs.skip(1)[w - 1]).len()
            > MAX_STR_SIZE as int);
        lemma_write_strings_some_too_long(d1, strs.skip(1), pos + len);
    }
}

/// Bytes outside the patched range are unchanged by a splice, and bytes
/// inside it come from the patch.
pub proof fn lemma_splice_facts(data: Seq<u8>, pos: int, patch: Seq<u8>)
    requires
        0 <= pos,
        pos + patch.len() <= data.len(),
    ensures
        splice(data, pos, patch).len() == data.len(),
        forall|i: int| 0 <= i < pos ==> splice(data, pos, patch)[i] == data[i],
        forall|i: int|
            pos <= i < pos + patch.len() ==> splice(data, pos, patch)[i] == patch[i - pos],
        forall|i: int|
            pos + patch.len() <= i < data.len() ==> splice(data, pos, patch)[i] == data[i],
{
}

/// A buffer that holds the descriptor bytes of a string at `pos` holds a
/// well-formed descriptor there carrying exactly that string.
pub proof fn lemma_desc_bytes_at(d: Seq<u8>, pos: int, s: Seq<char>)
    requires
        0 <= pos,
        utf16_encode(s).len() <= MAX_STR_SIZE as int,
        pos + desc_bytes(s).len() <= d.len(),
        forall|i: int| 0 <= i < desc_bytes(s).len() ==> d[pos + i] == desc_bytes(s)[i],
    ensures
        desc_ok_at(d, pos),
        desc_chars_at(d, pos) == s,
        desc_end(d, pos) == pos + desc_bytes(s).len(),
{
    let units = utf16_encode(s);
    let n = units.len() as int;
    let len = 2 + 2 * n;
    assert(desc_bytes(s).len() == len);
    assert(d[pos + 0] == desc_bytes(s)[0]);
    assert(d[pos + 1] == desc_bytes(s)[1]);
    assert(d[pos] == (len as u8));
    assert(d[pos] == len);
    vstd::arithmetic::div_mod::lemma_mod_multiples_basic(n, 2);
    assert((d[pos] - 2) % 2 == 0);
    let sub = d.subrange(pos + 2, pos + len);
    assert forall|m: int| 0 <= m < 2 * n implies sub[m] == units_to_le_bytes(units)[m] by {
        assert(d[pos + (2 + m)] == desc_bytes(s)[2 + m]);
        assert(desc_bytes(s)[2 + m] == units_to_le_bytes(units)[m]);
    }
    lemma_units_round_trip(units);
    assert(sub =~= units_to_le_bytes(units));
    assert(desc_units_at(d, pos) == units);
    crate::utf16::lemma_utf16_round_trip(s);
}

/// Round trip, image side: the serialized image of any record whose
/// strings fit parses back as a valid image carrying exactly the
/// record's fields.
pub proof fn lemma_hw_round_trip(info: HwInfo)
    requires
        hw_strings_fit(info),
    ensures
        hw_image(info).len() == EEPROM_SIZE as int,
        header_ok(hw_image(info)),
        strings_ok(hw_image(info)),
        hw_fields_ok(hw_image(info), info),
{
    let hdr = hw_header_image(info);
    let sm = info.manufact@;
    let sp = info.product@;
    let ss = info.serial@;
    let strs: Seq<Seq<char>> = seq![sm, sp, ss];
    let l0 = 2 + 2 * utf16_encode(sm).len() as int;
    let l1 = 2 + 2 * utf16_encode(sp).len() as int;
    let l2 = 2 + 2 * utf16_encode(ss).len() as int;
    let p0 = STR_OFFSET_START as int;
    let p1 = p0 + l0;
    let p2 = p1 + l1;
    let p3 = p2 + l2;
    let d1 = splice(hdr, p0, desc_bytes(sm));
    let d2 = splice(d1, p1, desc_bytes(sp));
    let d3 = splice(d2, p2, desc_bytes(ss));
    assert(strs.skip(1) =~= seq![sp, ss]);
    assert(strs.skip(1).skip(1) =~= seq![ss]);
    assert(strs.skip(1).skip(1).skip(1) =~= Seq::<Seq<char>>::empty());
    lemma_splice_facts(hdr, p0, desc_bytes(sm));
    lemma_splice_facts(d1, p1, desc_bytes(sp));
    lemma_splice_facts(d2, p2, desc_bytes(ss));
    assert(write_strings(hdr, strs, p0) == write_strings(d1, strs.skip(1), p1));
    assert(write_strings(d1, strs.skip(1), p1) == write_strings(d2, strs.skip(1).skip(1), p2));
    assert(write_strings(d2, strs.skip(1).skip(1), p2) == write_strings(
        d3,
        strs.skip(1).skip(1).skip(1),
        p3,
    ));
    assert(write_strings(d3, strs.skip(1).skip(1).skip(1), p3) == (d3, Ok::<(), Error>(())));
    assert(hw_image(info) == d3);
    assert forall|i: int| 0 <= i < l0 implies d3[p0 + i] == desc_bytes(sm)[i] by {
        assert(d1[p0 + i] == desc_bytes(sm)[i]);
        assert(d2[p0 + i] == d1[p0 + i]);
        assert(d3[p0 + i] == d2[p0 + i]);
    }
    lemma_desc_bytes_at(d3, p0, sm);
    assert forall|i: int| 0 <= i < l1 implies d3[p1 + i] == desc_bytes(sp)[i] by {
        assert(d2[p1 + i] == desc_bytes(sp)[i]);
        assert(d3[p1 + i] == d2[p1 + i]);
    }
    lemma_desc_bytes_at(d3, p1, sp);
    assert forall|i: int| 0 <= i < l2 implies d3[p2 + i] == desc_bytes(ss)[i] by {
        assert(d3[p2 + i] == desc_bytes(ss)[i]);
    }
    lemma_desc_bytes_at(d3, p2, ss);
    assert(desc_end(d3, p0) == p1);
    assert(desc_end(d3, p1) == p2);
    assert forall|i: int| 0 <= i < p0 implies d3[i] == hdr[i] by {
        assert(d1[i] == hdr[i]);
        assert(d2[i] == d1[i]);
        assert(d3[i] == d2[i]);
    }
    vstd::arithmetic::div_mod::lemma_fundamental_div_mod(info.vendor_id as int, 256);
    vstd::arithmetic::div_mod::lemma_fundamental_div_mod(info.product_id as int, 256);
    assert((d3[2] + 256 * d3[3]) as u16 == info.vendor_id);
    assert((d3[4] + 256 * d3[5]) as u16 == info.product_id);
    let fb = hw_flags_byte(info);
    if info.remote_wakeup {
        if info.enable_ir {
            assert(fb == 3);
            assert((3u8 & 0x01) != 0 && (3u8 & 0x02) != 0) by (bit_vector);
        } else {
            assert(fb == 1);
            assert((1u8 & 0x01) != 0 && (1u8 & 0x02) == 0) by (bit_vector);
        }
    } else {
        if info.enable_ir {
            assert(fb == 2);
            assert((2u8 & 0x01) == 0 && (2u8 & 0x02) != 0) by (bit_vector);
        } else {
            assert(fb == 0);
            assert((0u8 & 0x01) == 0 && (0u8 & 0x02) == 0) by (bit_vector);
        }
    }
}

/// Round trip, record side: any record read back from the serialized
/// image of a fitting record is equivalent to it, field for field.
pub proof fn lemma_round_trip_equiv(info: HwInfo, parsed: HwInfo)
    requires
        hw_strings_fit(info),
        hw_fields_ok(hw_image(info), parsed),
    ensures
        parsed.equiv(info),
{
    lemma_hw_round_trip(info);
}

/// The position where writing the string table stopped: the write cursor
/// at the first string that failed, or past the last descriptor when all
/// of them were written.
pub open spec fn write_stop_pos(data: Seq<u8>, strs: Seq<Seq<char>>, pos: int) -> int
    decreases strs.len(),
{
    if strs.len() == 0 {
        pos
    } else {
        let len = 2 + 2 * utf16_encode(strs[0]).len();
        if len > 2 * MAX_STR_SIZE + 2 {
            pos
        } else if pos + len > data.len() {
            pos
        } else {
            write_stop_pos(splice(data, pos, desc_bytes(strs[0])), strs.skip(1), pos + len)
        }
    }
}

/// No partial field output: when writing the string table fails, every
/// byte from the failing string's write position onward is exactly as it
/// was; only whole descriptors of the earlier strings were written.
pub proof fn lemma_write_strings_no_partial(data: Seq<u8>, strs: Seq<Seq<char>>, pos: int)
    requires
        0 <= pos,
    ensures
        pos <= write_stop_pos(data, strs, pos),
        write_strings(data, strs, pos).1 is Err ==> write_strings(data, strs, pos).0.len()
            == data.len() && (forall|i: int|
            write_stop_pos(data, strs, pos) <= i < data.len() ==> write_strings(
                data,
                strs,
                pos,
            ).0[i] == data[i]),
    decreases strs.len(),
{
    if strs.len() > 0 {
        let len = 2 + 2 * utf16_encode(strs[0]).len();
        if len > 2 * MAX_STR_SIZE + 2 || pos + len > data.len() {
        } else {
            let d1 = splice(data, pos, desc_bytes(strs[0]));
            lemma_splice_facts(data, pos, desc_bytes(strs[0]));
            lemma_write_strings_no_partial(d1, strs.skip(1), pos + len);
        }
    }
}

} // verus!
