use radion::Device;
use radion::Error;
use radion::HwInfo;
use radion::RTLSDRTuner;
use radion::SamplingMode;
use radion::serialize_hw_info;

fn open_device() -> Device {
    Device::new(0).expect("zero status opens")
}

fn sample_info() -> HwInfo {
    HwInfo {
        vendor_id: 0x0BDA,
        product_id: 0x2838,
        manufact: String::from("RTLSDR"),
        product: String::from("Radio"),
        serial: String::from("001"),
        have_serial: true,
        enable_ir: false,
        remote_wakeup: true,
    }
}

#[test]
fn error_mapping_is_total() {
    assert_eq!(Error::from(-1), Error::Io);
    assert_eq!(Error::from(-2), Error::InvalidParam);
    assert_eq!(Error::from(-3), Error::Access);
    assert_eq!(Error::from(-4), Error::NoDevice);
    assert_eq!(Error::from(-5), Error::NotFound);
    assert_eq!(Error::from(-6), Error::Busy);
    assert_eq!(Error::from(-7), Error::Timeout);
    assert_eq!(Error::from(-8), Error::Overflow);
    assert_eq!(Error::from(-9), Error::Pipe);
    assert_eq!(Error::from(-10), Error::Interrupted);
    assert_eq!(Error::from(-11), Error::NoMem);
    assert_eq!(Error::from(-12), Error::NotSupported);
    assert_eq!(Error::from(-13), Error::NoValidEEPROMHeader);
    assert_eq!(Error::from(-14), Error::StringValueTooLong);
    assert_eq!(Error::from(-15), Error::StringDescriptorInvalid);
    assert_eq!(Error::from(-16), Error::StringDescriptorTooLong);
    assert_eq!(Error::from(0), Error::Unknown);
    assert_eq!(Error::from(-17), Error::Unknown);
    assert_eq!(Error::from(42), Error::Unknown);
}

#[test]
fn error_message_text() {
    assert_eq!(Error::Io.message(), "Input/output error");
    assert_eq!(Error::Timeout.message(), "Operation timed out");
    assert_eq!(Error::NoMem.message(), "An unknown error occurred");
    assert_eq!(Error::Unknown.message(), "An unknown error occurred");
}

#[test]
fn tuner_classification() {
    assert_eq!(RTLSDRTuner::try_from(0), Ok(RTLSDRTuner::Unknown));
    assert_eq!(RTLSDRTuner::try_from(1), Ok(RTLSDRTuner::E4000));
    assert_eq!(RTLSDRTuner::try_from(2), Ok(RTLSDRTuner::FC0012));
    assert_eq!(RTLSDRTuner::try_from(3), Ok(RTLSDRTuner::FC0013));
    assert_eq!(RTLSDRTuner::try_from(4), Ok(RTLSDRTuner::FC2580));
    assert_eq!(RTLSDRTuner::try_from(5), Ok(RTLSDRTuner::R820T));
    assert_eq!(RTLSDRTuner::try_from(6), Ok(RTLSDRTuner::R828D));
}

#[test]
fn tuner_unrecognized_code_fails() {
    // an unrecognized code is a classification error, never the Unknown variant
    assert_eq!(RTLSDRTuner::try_from(7), Err(Error::Unknown));
    assert_eq!(RTLSDRTuner::try_from(-1), Err(Error::Unknown));
    assert_eq!(RTLSDRTuner::try_from(i32::MAX), Err(Error::Unknown));
}

#[test]
fn sampling_mode_variants_exist() {
    let modes = [
        SamplingMode::Disabled,
        SamplingMode::IADC,
        SamplingMode::QADC,
        SamplingMode::Error,
    ];
    assert_eq!(modes.len(), 4);
    assert_eq!(modes[1], SamplingMode::IADC);
}

#[test]
fn open_maps_status() {
    assert!(Device::new(0).is_ok());
    assert_eq!(Device::new(-4).err(), Some(Error::NoDevice));
    assert_eq!(Device::new(-1).err(), Some(Error::Io));
    assert_eq!(Device::new(3).err(), Some(Error::Unknown));
}

#[test]
fn close_releases_at_most_once() {
    let mut dev = open_device();
    assert!(dev.is_open());
    assert!(dev.close());
    assert!(!dev.is_open());
    assert!(!dev.close());
    assert!(!dev.close());
}

#[test]
fn close_status_maps() {
    assert_eq!(Device::close_status(0), Ok(()));
    assert_eq!(Device::close_status(-1), Err(Error::Io));
}

#[test]
fn released_handle_rejects_every_operation() {
    let mut dev = open_device();
    assert!(dev.close());
    assert_eq!(dev.confirm_status(0), Err(Error::NoDevice));
    assert_eq!(dev.write_eeprom(0), Err(Error::NoDevice));
    assert_eq!(dev.read_eeprom(vec![1, 2], 0), Err(Error::NoDevice));
    assert_eq!(dev.value_status(7), Err(Error::NoDevice));
    assert_eq!(dev.value_status_u32(7), Err(Error::NoDevice));
    assert_eq!(dev.flag_status(1), Err(Error::NoDevice));
    assert_eq!(dev.get_xtal_freq(0, 1, 2), Err(Error::NoDevice));
    assert_eq!(
        dev.get_usb_strings(0, String::new(), String::new(), String::new()),
        Err(Error::NoDevice)
    );
    assert_eq!(dev.read_sync(vec![0u8; 4], 0), Err(Error::NoDevice));
    assert_eq!(dev.get_tuner_type(5), Err(Error::NoDevice));
    assert_eq!(dev.get_tuner_gains_count(4), Err(Error::NoDevice));
    assert_eq!(dev.get_tuner_gains(vec![1], 1), Err(Error::NoDevice));
    assert_eq!(dev.get_hw_info(0, vec![0u8; 256]), Err(Error::NoDevice));
    assert_eq!(dev.set_hw_info(&sample_info()), Err(Error::NoDevice));
}

#[test]
fn setter_statuses_follow_zero_convention() {
    let dev = open_device();
    assert_eq!(dev.confirm_status(0), Ok(()));
    assert_eq!(dev.confirm_status(-2), Err(Error::InvalidParam));
    assert_eq!(dev.confirm_status(1), Err(Error::Unknown));
}

#[test]
fn eeprom_statuses_follow_nonneg_convention() {
    let dev = open_device();
    assert_eq!(dev.write_eeprom(0), Ok(()));
    assert_eq!(dev.write_eeprom(5), Ok(()));
    assert_eq!(dev.write_eeprom(-9), Err(Error::Pipe));
    assert_eq!(dev.read_eeprom(vec![7, 8, 9], 3), Ok(vec![7, 8, 9]));
    assert_eq!(dev.read_eeprom(vec![7, 8, 9], -3), Err(Error::Access));
}

#[test]
fn getter_statuses_carry_the_value() {
    let dev = open_device();
    assert_eq!(dev.value_status(42), Ok(42));
    assert_eq!(dev.value_status(0), Ok(0));
    assert_eq!(dev.value_status(-7), Err(Error::Timeout));
    assert_eq!(dev.value_status_u32(2_048_000), Ok(2_048_000));
    assert_eq!(dev.value_status_u32(-1), Err(Error::Io));
    assert_eq!(dev.flag_status(0), Ok(false));
    assert_eq!(dev.flag_status(2), Ok(true));
    assert_eq!(dev.flag_status(-12), Err(Error::NotSupported));
}

#[test]
fn xtal_and_usb_strings_pass_values_through() {
    let dev = open_device();
    assert_eq!(dev.get_xtal_freq(0, 28_800_000, 28_800_001), Ok((28_800_000, 28_800_001)));
    assert_eq!(dev.get_xtal_freq(-1, 1, 2), Err(Error::Io));
    let r = dev.get_usb_strings(
        0,
        String::from("m"),
        String::from("p"),
        String::from("s"),
    );
    assert_eq!(
        r,
        Ok((String::from("m"), String::from("p"), String::from("s")))
    );
    assert_eq!(
        dev.get_usb_strings(-4, String::new(), String::new(), String::new()),
        Err(Error::NoDevice)
    );
}

#[test]
fn read_sync_returns_buffer_on_zero() {
    let dev = open_device();
    assert_eq!(dev.read_sync(vec![1, 2, 3], 0), Ok(vec![1, 2, 3]));
    assert_eq!(dev.read_sync(vec![1, 2, 3], -8), Err(Error::Overflow));
}

#[test]
fn tuner_type_through_device() {
    let dev = open_device();
    assert_eq!(dev.get_tuner_type(5), Ok(RTLSDRTuner::R820T));
    assert_eq!(dev.get_tuner_type(9), Err(Error::Unknown));
}

#[test]
fn gain_list_count_phase_rejects_nonpositive() {
    let dev = open_device();
    assert_eq!(dev.get_tuner_gains_count(0), Err(Error::Unknown));
    assert_eq!(dev.get_tuner_gains_count(-1), Err(Error::Io));
    assert_eq!(dev.get_tuner_gains_count(4), Ok(4));
}

#[test]
fn gain_list_fill_phase_can_still_fail() {
    let dev = open_device();
    // the count phase succeeded with 3 steps ...
    let n = dev.get_tuner_gains_count(3).expect("positive count");
    assert_eq!(n, 3);
    // ... yet a failed fill still fails the operation
    assert_eq!(dev.get_tuner_gains(vec![0; 3], -7), Err(Error::Timeout));
    assert_eq!(dev.get_tuner_gains(vec![0; 3], 0), Err(Error::Unknown));
    assert_eq!(dev.get_tuner_gains(vec![9, 28, 42], 3), Ok(vec![9, 28, 42]));
}

#[test]
fn index_by_serial_follows_nonneg_convention() {
    assert_eq!(Device::get_index_by_serial(2), Ok(2));
    assert_eq!(Device::get_index_by_serial(0), Ok(0));
    assert_eq!(Device::get_index_by_serial(-5), Err(Error::NotFound));
}

#[test]
fn hw_info_round_trip_through_device() {
    let dev = open_device();
    let info = sample_info();
    let image = dev.set_hw_info(&info).expect("strings fit");
    let back = dev.get_hw_info(0, image).expect("own image must parse");
    assert_eq!(back, info);
}

#[test]
fn get_hw_info_propagates_read_failure() {
    let dev = open_device();
    assert_eq!(dev.get_hw_info(-1, vec![0u8; 256]), Err(Error::Io));
}

#[test]
fn get_hw_info_rejects_bad_image() {
    let dev = open_device();
    assert_eq!(dev.get_hw_info(0, vec![0u8; 256]), Err(Error::NoValidEEPROMHeader));
}

#[test]
fn set_hw_info_matches_codec() {
    let dev = open_device();
    let info = sample_info();
    let from_device = dev.set_hw_info(&info).expect("strings fit");
    let from_codec = serialize_hw_info(&info).expect("strings fit");
    assert_eq!(from_device, from_codec);
}

#[test]
fn set_hw_info_rejects_long_string() {
    let dev = open_device();
    let mut info = sample_info();
    info.manufact = "m".repeat(36);
    assert_eq!(dev.set_hw_info(&info), Err(Error::StringValueTooLong));
}
