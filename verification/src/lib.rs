//! Safe, verified core of a wrapper around an RTL-SDR USB radio driver.
//!
//! The crate models the decision logic of the wrapper: the EEPROM
//! configuration codec (a fixed 256-byte image holding vendor identity and
//! three UTF-16LE string descriptors), the translation of native integer
//! status codes into a closed error enumeration, tuner-type classification,
//! and the handle-lifetime state machine that guarantees at-most-once
//! release. The native driver calls themselves live outside this crate;
//! callers hand the raw outcomes (status codes, buffers) to the functions
//! here, which interpret them under verified contracts.

pub mod device;
pub mod error;
pub mod hw_info;
pub mod tuner;
pub mod utf16;
pub mod utils;

pub use device::Device;
pub use error::Error;
pub use error::spec_from_status;
pub use hw_info::HwInfo;
pub use tuner::RTLSDRTuner;
pub use tuner::SamplingMode;
pub use utf16::utf16_decode_units;
pub use utf16::utf16_encode_str;
pub use utils::parse_hw_info;
pub use utils::parse_string_descriptors;
pub use utils::serialize_hw_info;
pub use utils::serialize_string_descriptors;
pub use utils::MAX_STR_SIZE;
pub use utils::STR_OFFSET_START;
pub use utils::EEPROM_SIZE;
