use lifx_lan::codec::Message;
use lifx_lan::discovery::{handle_datagram, Discovery, DiscoveryError, DISCOVERY_TIMEOUT_MS};
use lifx_lan::frame::{build, pack, BuildOptions, SOURCE_IDENTIFIER};
use lifx_lan::registry::{DeviceRecord, NetAddress, Registry};

/// The bytes a device would answer discovery with: a targeted frame
/// whose target field carries its own identity and whose payload is a
/// StateService reply.
fn state_service_reply(identity: u64, port: u32) -> Vec<u8> {
    let options = BuildOptions {
        target: Some(identity),
        source: SOURCE_IDENTIFIER,
        response_required: false,
        sequence: 0,
    };
    let frame = build(&options, &Message::StateService { service_type: 1, port }).unwrap();
    pack(&frame)
}

#[test]
fn begin_produces_broadcast_request() {
    let mut disc = Discovery::new();
    let bytes = disc.begin(5000).unwrap();
    assert_eq!(bytes.len(), 36);
    assert_eq!(&bytes[0..2], &[36, 0]); // declared size
    assert_eq!(&bytes[2..4], &[0x00, 0x04]); // untargeted: flag unset
    assert_eq!(&bytes[4..8], &[0x74, 0x73, 0x75, 0x72]); // source id
    assert_eq!(&bytes[8..16], &[0; 8]); // target zero-filled
    assert_eq!(&bytes[32..36], &[2, 0, 0, 0]); // GetService payload
}

#[test]
fn begin_while_listening_fails() {
    let mut disc = Discovery::new();
    disc.begin(5000).unwrap();
    assert_eq!(
        disc.begin(5001),
        Err(DiscoveryError::DiscoveryInProgress)
    );
}

#[test]
fn finish_lets_a_new_cycle_begin() {
    let mut disc = Discovery::new();
    disc.begin(5000).unwrap();
    disc.finish();
    assert!(disc.begin(9000).is_ok());
}

#[test]
fn remaining_budget_counts_down_to_zero() {
    let mut disc = Discovery::new();
    disc.begin(5000).unwrap();
    assert_eq!(disc.remaining_ms(5000), DISCOVERY_TIMEOUT_MS);
    assert_eq!(disc.remaining_ms(5500), DISCOVERY_TIMEOUT_MS - 500);
    assert_eq!(disc.remaining_ms(5000 + DISCOVERY_TIMEOUT_MS), 0);
    assert_eq!(disc.remaining_ms(9999999), 0);
}

#[test]
fn state_service_reply_is_discovered() {
    let mut reg = Registry::new();
    let source = NetAddress::from_octets(192, 168, 1, 50, 56700);
    let datagram = state_service_reply(0x1122334455667788, 56700);
    let discovered = handle_datagram(&mut reg, datagram.as_slice(), source, 777);
    let expected = DeviceRecord {
        identity: 0x1122334455667788,
        address: source,
        last_seen: 777,
    };
    // One notification to emit, one record in the registry.
    assert_eq!(discovered, Some(expected));
    assert_eq!(reg.len(), 1);
    assert_eq!(reg.get(0x1122334455667788), Some(expected));
}

#[test]
fn garbage_datagram_is_ignored() {
    let mut reg = Registry::new();
    let source = NetAddress::from_octets(192, 168, 1, 50, 56700);
    assert_eq!(handle_datagram(&mut reg, &[1, 2, 3], source, 777), None);
    assert_eq!(handle_datagram(&mut reg, &[0u8; 40], source, 777), None);
    assert_eq!(reg.len(), 0);
}

#[test]
fn non_reply_message_is_ignored() {
    let mut reg = Registry::new();
    let source = NetAddress::from_octets(192, 168, 1, 50, 56700);
    let options = BuildOptions {
        target: Some(7),
        source: SOURCE_IDENTIFIER,
        response_required: false,
        sequence: 0,
    };
    let frame = build(&options, &Message::SetPower { level: 1, duration: 0 }).unwrap();
    let datagram = pack(&frame);
    assert_eq!(handle_datagram(&mut reg, datagram.as_slice(), source, 777), None);
    assert_eq!(reg.len(), 0);
}

#[test]
fn repeated_reply_updates_not_duplicates() {
    let mut reg = Registry::new();
    let first_source = NetAddress::from_octets(192, 168, 1, 50, 56700);
    let second_source = NetAddress::from_octets(192, 168, 1, 60, 56700);
    let datagram = state_service_reply(77, 56700);
    handle_datagram(&mut reg, datagram.as_slice(), first_source, 100);
    handle_datagram(&mut reg, datagram.as_slice(), second_source, 200);
    assert_eq!(reg.len(), 1);
    assert_eq!(
        reg.get(77),
        Some(DeviceRecord { identity: 77, address: second_source, last_seen: 200 })
    );
}
