//! The structured hardware-information record stored in the device EEPROM.

use vstd::prelude::*;

verus! {

/// Vendor identity and configuration of a device, as decoded from (or
/// encoded into) the 256-byte EEPROM image: numeric IDs, three descriptor
/// strings, and three flags.
#[derive(Debug, Clone, PartialEq, Eq)]
pub struct HwInfo {
    pub vendor_id: u16,
    pub product_id: u16,
    pub manufact: String,
    pub product: String,
    pub serial: String,
    pub have_serial: bool,
    pub enable_ir: bool,
    pub remote_wakeup: bool,
}

impl HwInfo {
    /// Two records agree when every field holds the same value; string
    /// fields are compared by their character sequences.
    pub open spec fn equiv(self, other: HwInfo) -> bool {
        &&& self.vendor_id == other.vendor_id
        &&& self.product_id == other.product_id
        &&& self.manufact@ == other.manufact@
        &&& self.product@ == other.product@
        &&& self.serial@ == other.serial@
        &&& self.have_serial == other.have_serial
        &&& self.enable_ir == other.enable_ir
        &&& self.remote_wakeup == other.remote_wakeup
    }
}

} // verus!
