use lifx_lan::codec::{decode, encode, DecodeError, Message};
use lifx_lan::frame::{
    build, frame_from_payload, frame_target, pack, strip_header, BuildError, BuildOptions,
    FRAME_HEADER_BYTES, MAX_FRAME_BYTES, SOURCE_IDENTIFIER,
};

fn targeted_options(id: u64) -> BuildOptions {
    BuildOptions {
        target: Some(id),
        source: SOURCE_IDENTIFIER,
        response_required: true,
        sequence: 0,
    }
}

#[test]
fn build_targeted_sets_flag_and_target() {
    let options = targeted_options(0x1122334455667788);
    let frame = build(&options, &Message::SetPower { level: 0, duration: 1 }).unwrap();
    assert!(frame.header.addressable);
    assert_eq!(frame.header.target, 0x1122334455667788);
}

#[test]
fn build_broadcast_clears_flag_and_target() {
    let options = BuildOptions {
        target: None,
        source: SOURCE_IDENTIFIER,
        response_required: true,
        sequence: 0,
    };
    let frame = build(&options, &Message::GetService).unwrap();
    assert!(!frame.header.addressable);
    assert_eq!(frame.header.target, 0);
}

#[test]
fn pack_size_field_matches_length() {
    let messages = vec![
        Message::GetService,
        Message::StateService { service_type: 1, port: 56700 },
        Message::SetPower { level: 1, duration: 0 },
        Message::SetColor {
            hue: 120,
            saturation: 65535,
            brightness: 65535,
            kelvin: 0,
            duration: 0,
        },
    ];
    for m in messages {
        let frame = build(&targeted_options(7), &m).unwrap();
        let bytes = pack(&frame);
        let declared = bytes[0] as usize + 256 * bytes[1] as usize;
        assert_eq!(declared, bytes.len());
        assert_eq!(declared, frame.header.size as usize);
    }
}

#[test]
fn pack_layout_exact() {
    let options = BuildOptions {
        target: Some(0x1122334455667788),
        source: 0x72757374,
        response_required: true,
        sequence: 9,
    };
    let frame = build(&options, &Message::SetPower { level: 1, duration: 0 }).unwrap();
    let bytes = pack(&frame);
    let expected = vec![
        42, 0, // size: 32 header + 10 payload
        0x00, 0x14, // protocol 1024 with the addressable bit (4096)
        0x74, 0x73, 0x75, 0x72, // source, little-endian
        0x88, 0x77, 0x66, 0x55, 0x44, 0x33, 0x22, 0x11, // target, little-endian
        0, 0, 0, 0, 0, 0, // reserved
        1, // acknowledgment requested
        9, // sequence
        0, 0, 0, 0, 0, 0, 0, 0, // reserved
        117, 0, 0, 0, 1, 0, 0, 0, 0, 0, // SetPower payload
    ];
    assert_eq!(bytes, expected);
}

#[test]
fn pack_broadcast_flags_field() {
    let options = BuildOptions {
        target: None,
        source: 0x72757374,
        response_required: true,
        sequence: 0,
    };
    let frame = build(&options, &Message::GetService).unwrap();
    let bytes = pack(&frame);
    assert_eq!(bytes.len(), 36);
    assert_eq!(&bytes[2..4], &[0x00, 0x04]); // protocol 1024, flag unset
    assert_eq!(&bytes[8..16], &[0; 8]); // target zero-filled
}

#[test]
fn round_trip_through_packed_frame() {
    let messages = vec![
        Message::GetService,
        Message::StateService { service_type: 1, port: 56700 },
        Message::SetPower { level: 0, duration: 1 },
        Message::SetColor {
            hue: 120,
            saturation: 65535,
            brightness: 65535,
            kelvin: 0,
            duration: 0,
        },
    ];
    for m in messages {
        let frame = build(&targeted_options(0xABCDEF), &m).unwrap();
        let packed = pack(&frame);
        let payload = strip_header(packed.as_slice()).unwrap();
        assert_eq!(decode(payload.as_slice()), Ok(m));
    }
}

#[test]
fn strip_header_of_short_frame_fails() {
    let short = vec![0u8; FRAME_HEADER_BYTES - 1];
    assert_eq!(
        strip_header(short.as_slice()),
        Err(DecodeError::TruncatedFrame)
    );
}

#[test]
fn frame_target_reads_identity() {
    let frame = build(&targeted_options(0x1122334455667788), &Message::GetService).unwrap();
    let packed = pack(&frame);
    assert_eq!(frame_target(packed.as_slice()), Ok(0x1122334455667788));
    assert_eq!(frame_target(&[0u8; 31]), Err(DecodeError::TruncatedFrame));
}

#[test]
fn oversized_payload_is_rejected() {
    let options = targeted_options(1);
    let too_large = vec![0u8; MAX_FRAME_BYTES - FRAME_HEADER_BYTES + 1];
    assert_eq!(
        frame_from_payload(&options, too_large).err(),
        Some(BuildError::PayloadTooLarge)
    );
    let largest = vec![0u8; MAX_FRAME_BYTES - FRAME_HEADER_BYTES];
    let frame = frame_from_payload(&options, largest).unwrap();
    assert_eq!(frame.header.size as usize, MAX_FRAME_BYTES);
}

#[test]
fn default_options_are_untargeted() {
    let options = BuildOptions::default();
    assert!(options.target.is_none());
    assert_eq!(options.source, 0);
    assert!(!options.response_required);
    assert_eq!(options.sequence, 0);
}

#[test]
fn encoded_payload_sits_after_header() {
    let m = Message::SetColor {
        hue: 120,
        saturation: 65535,
        brightness: 65535,
        kelvin: 0,
        duration: 0,
    };
    let frame = build(&targeted_options(5), &m).unwrap();
    let packed = pack(&frame);
    assert_eq!(&packed[FRAME_HEADER_BYTES..], encode(&m).as_slice());
}
