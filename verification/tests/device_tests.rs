use audio_engine::device::{
    parse_device_number, resolve_device_id, with_default_entry, AudioOutputDevice, DeviceSelector,
};
use audio_engine::error::AudioError;

#[test]
fn default_resolves_to_the_system_default() {
    assert_eq!(resolve_device_id("default"), Ok(DeviceSelector::SystemDefault));
}

#[test]
fn decimal_identifiers_resolve_to_device_numbers() {
    assert_eq!(resolve_device_id("0"), Ok(DeviceSelector::DeviceNumber(0)));
    assert_eq!(resolve_device_id("42"), Ok(DeviceSelector::DeviceNumber(42)));
    assert_eq!(
        resolve_device_id("4294967295"),
        Ok(DeviceSelector::DeviceNumber(4294967295))
    );
}

#[test]
fn malformed_identifiers_are_device_errors() {
    assert_eq!(resolve_device_id(""), Err(AudioError::DeviceError));
    assert_eq!(resolve_device_id("abc"), Err(AudioError::DeviceError));
    assert_eq!(resolve_device_id("12x"), Err(AudioError::DeviceError));
    assert_eq!(resolve_device_id("-1"), Err(AudioError::DeviceError));
    assert_eq!(resolve_device_id("4294967296"), Err(AudioError::DeviceError));
    assert_eq!(resolve_device_id("Default"), Err(AudioError::DeviceError));
}

#[test]
fn parse_accepts_leading_zeros() {
    assert_eq!(parse_device_number("007"), Some(7));
    assert_eq!(parse_device_number("000000000000000000001"), Some(1));
}

#[test]
fn parse_rejects_overflow_and_junk() {
    assert_eq!(parse_device_number("99999999999999999999"), None);
    assert_eq!(parse_device_number("+7"), None);
    assert_eq!(parse_device_number(" 7"), None);
}

#[test]
fn device_list_always_starts_with_default() {
    let out = with_default_entry(String::from("Built-in Output"), Vec::new());
    assert_eq!(out.len(), 1);
    assert_eq!(out[0].id, "default");
    assert_eq!(out[0].name, "Built-in Output");
}

#[test]
fn device_list_keeps_discovered_order() {
    let discovered = vec![
        AudioOutputDevice { id: String::from("62"), name: String::from("Speakers") },
        AudioOutputDevice { id: String::from("71"), name: String::from("Headphones") },
    ];
    let out = with_default_entry(String::from("System Default"), discovered);
    assert_eq!(out.len(), 3);
    assert_eq!(out[0].id, "default");
    assert_eq!(out[1].id, "62");
    assert_eq!(out[1].name, "Speakers");
    assert_eq!(out[2].id, "71");
    assert_eq!(out[2].name, "Headphones");
}
