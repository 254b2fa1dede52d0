//! Wire compatibility against the reference protocol implementation:
//! the frames this library plans for commands must be byte-for-byte the
//! frames the lifx-core crate builds, and replies built by lifx-core
//! must be understood by this library's discovery path.

use lifx_lan::discovery::handle_datagram;
use lifx_lan::dispatch::{plan_dispatch, Command};
use lifx_lan::registry::{DeviceRecord, NetAddress, Registry};

/// The frame lifx-core builds for one targeted command, with the same
/// addressing the dispatcher uses.
fn reference_frame(target: u64, message: lifx_core::Message) -> Vec<u8> {
    let options = lifx_core::BuildOptions {
        target: Some(target),
        ack_required: false,
        res_required: true,
        source: 0x72757374,
        sequence: 0,
    };
    lifx_core::RawMessage::build(&options, message)
        .unwrap()
        .pack()
        .unwrap()
}

fn single_device(identity: u64) -> Vec<DeviceRecord> {
    vec![DeviceRecord {
        identity,
        address: NetAddress::from_octets(10, 0, 0, 1, 56700),
        last_seen: 0,
    }]
}

#[test]
fn power_off_frame_matches_reference_implementation() {
    let plan = plan_dispatch(&Command::PowerOff, &single_device(0xD073D5123456)).unwrap();
    let expected = reference_frame(
        0xD073D5123456,
        lifx_core::Message::LightSetPower { level: 0, duration: 1 },
    );
    assert_eq!(plan[0].bytes, expected);
}

#[test]
fn power_on_frame_matches_reference_implementation() {
    let plan = plan_dispatch(&Command::PowerOn, &single_device(0xD073D5123456)).unwrap();
    // The reference implementation sends the full-brightness sentinel
    // for any nonzero level, as the protocol defines.
    let expected = reference_frame(
        0xD073D5123456,
        lifx_core::Message::LightSetPower { level: 1, duration: 0 },
    );
    assert_eq!(plan[0].bytes, expected);
}

#[test]
fn set_color_frame_matches_reference_implementation() {
    let command = Command::SetColor { hue: 120, saturation: 65535, brightness: 65535 };
    let plan = plan_dispatch(&command, &single_device(0xD073D5123456)).unwrap();
    let expected = reference_frame(
        0xD073D5123456,
        lifx_core::Message::LightSetColor {
            reserved: 0,
            color: lifx_core::HSBK { hue: 120, saturation: 65535, brightness: 65535, kelvin: 0 },
            duration: 0,
        },
    );
    assert_eq!(plan[0].bytes, expected);
}

#[test]
fn reference_reply_is_discovered() {
    // A discovery reply as lifx-core would shape it: the device's own
    // identity in the target field, a StateService payload.
    let options = lifx_core::BuildOptions {
        target: Some(0x1122334455667788),
        ack_required: false,
        res_required: false,
        source: 0x72757374,
        sequence: 0,
    };
    let datagram = lifx_core::RawMessage::build(
        &options,
        lifx_core::Message::StateService { service: lifx_core::Service::UDP, port: 56700 },
    )
    .unwrap()
    .pack()
    .unwrap();

    let mut reg = Registry::new();
    let source = NetAddress::from_octets(192, 168, 1, 50, 56700);
    let discovered = handle_datagram(&mut reg, &datagram, source, 42);
    assert_eq!(
        discovered,
        Some(DeviceRecord { identity: 0x1122334455667788, address: source, last_seen: 42 })
    );
    assert_eq!(reg.len(), 1);
}
