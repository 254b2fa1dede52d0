//! Message codec: protocol messages to and from their binary encoding.
//!
//! An encoded message starts with its 16-bit type tag, little-endian,
//! followed by two reserved zero bytes, followed by the fixed-layout body
//! of the variant. All numeric fields are fixed-width little-endian
//! integers, in the order the wire format defines.

use vstd::bytes::*;
use vstd::prelude::*;
use vstd::slice::*;

verus! {

/// Wire type tag of a discovery request.
pub const GET_SERVICE_TAG: u16 = 2;

/// Wire type tag of a discovery reply.
pub const STATE_SERVICE_TAG: u16 = 3;

/// Wire type tag of a color command.
pub const SET_COLOR_TAG: u16 = 102;

/// Wire type tag of a power command.
pub const SET_POWER_TAG: u16 = 117;

/// Bytes of the tag and the reserved pair that precede every body.
pub const MESSAGE_PREAMBLE_BYTES: usize = 4;

/// A protocol message: one variant per supported operation, carrying
/// exactly the fields its wire layout requires.
#[derive(Clone, Copy, Debug, PartialEq, Eq, Structural)]
pub enum Message {
    /// Discovery request, broadcast to all devices; empty body.
    GetService,
    /// Discovery reply: the service a device offers and the UDP port it
    /// listens on.
    StateService { service_type: u8, port: u32 },
    /// Power command: the level to set and the transition time in
    /// milliseconds.
    SetPower { level: u16, duration: u32 },
    /// Color command: hue, saturation, brightness and kelvin as 16-bit
    /// values, and the transition time in milliseconds.
    SetColor { hue: u16, saturation: u16, brightness: u16, kelvin: u16, duration: u32 },
}

/// Why a byte sequence failed to decode.
#[derive(Clone, Copy, Debug, PartialEq, Eq, Structural)]
pub enum DecodeError {
    /// Shorter than the minimum size for the declared message type.
    TruncatedFrame,
    /// The type tag names no supported message.
    UnknownMessageType,
}

/// The wire type tag of a message.
pub open spec fn spec_message_tag(m: Message) -> u16 {
    match m {
        Message::GetService => GET_SERVICE_TAG,
        Message::StateService { .. } => STATE_SERVICE_TAG,
        Message::SetColor { .. } => SET_COLOR_TAG,
        Message::SetPower { .. } => SET_POWER_TAG,
    }
}

/// The body of a message: its fields in wire order, little-endian.
pub open spec fn spec_body(m: Message) -> Seq<u8> {
    match m {
        Message::GetService => Seq::<u8>::empty(),
        Message::StateService { service_type, port } => seq![service_type]
            + spec_u32_to_le_bytes(port),
        Message::SetPower { level, duration } => spec_u16_to_le_bytes(level)
            + spec_u32_to_le_bytes(duration),
        Message::SetColor { hue, saturation, brightness, kelvin, duration } => seq![0u8]
            + spec_u16_to_le_bytes(hue) + spec_u16_to_le_bytes(saturation) + spec_u16_to_le_bytes(
            brightness,
        ) + spec_u16_to_le_bytes(kelvin) + spec_u32_to_le_bytes(duration),
    }
}

/// The full encoding: tag, reserved pair, body.
pub open spec fn spec_encode(m: Message) -> Seq<u8> {
    spec_u16_to_le_bytes(spec_message_tag(m)) + seq![0u8, 0u8] + spec_body(m)
}

/// The minimum encoded size of the message a tag declares, preamble
/// included; `None` for a tag no variant uses.
pub open spec fn spec_min_size_of_tag(tag: u16) -> Option<int> {
    if tag == GET_SERVICE_TAG {
        Some(4int)
    } else if tag == STATE_SERVICE_TAG {
        Some(9int)
    } else if tag == SET_POWER_TAG {
        Some(10int)
    } else if tag == SET_COLOR_TAG {
        Some(17int)
    } else {
        None
    }
}

/// What decoding a byte sequence yields: too short for the tag and the
/// reserved pair, or for the body its tag declares, is `TruncatedFrame`;
/// a tag no variant uses is `UnknownMessageType`; bytes beyond the
/// declared body are ignored.
pub open spec fn spec_decode(b: Seq<u8>) -> Result<Message, DecodeError> {
    if b.len() < MESSAGE_PREAMBLE_BYTES {
        Err(DecodeError::TruncatedFrame)
    } else {
        let tag = spec_u16_from_le_bytes(b.subrange(0, 2));
        match spec_min_size_of_tag(tag) {
            None => Err(DecodeError::UnknownMessageType),
            Some(min) => if b.len() < min {
                Err(DecodeError::TruncatedFrame)
            } else if tag == GET_SERVICE_TAG {
                Ok(Message::GetService)
            } else if tag == STATE_SERVICE_TAG {
                Ok(
                    Message::StateService {
                        service_type: b[4],
                        port: spec_u32_from_le_bytes(b.subrange(5, 9)),
                    },
                )
            } else if tag == SET_POWER_TAG {
                Ok(
                    Message::SetPower {
                        level: spec_u16_from_le_bytes(b.subrange(4, 6)),
                        duration: spec_u32_from_le_bytes(b.subrange(6, 10)),
                    },
                )
            } else {
                Ok(
                    Message::SetColor {
                        hue: spec_u16_from_le_bytes(b.subrange(5, 7)),
                        saturation: spec_u16_from_le_bytes(b.subrange(7, 9)),
                        brightness: spec_u16_from_le_bytes(b.subrange(9, 11)),
                        kelvin: spec_u16_from_le_bytes(b.subrange(11, 13)),
                        duration: spec_u32_from_le_bytes(b.subrange(13, 17)),
                    },
                )
            },
        }
    }
}

/// Encodes a message into its wire bytes.
pub fn encode(m: &Message) -> (r: Vec<u8>)
    ensures
        r@ == spec_encode(*m),
{
    let mut out = u16_to_le_bytes(message_tag(m));
    out.push(0u8);
    out.push(0u8);
    proof {
        assert(out@ == spec_u16_to_le_bytes(spec_message_tag(*m)) + seq![0u8, 0u8]);
    }
    match m {
        Message::GetService => {
            proof {
                assert(out@ == spec_encode(*m));
            }
        },
        Message::StateService { service_type, port } => {
            out.push(*service_type);
            let mut port_bytes = u32_to_le_bytes(*port);
            out.append(&mut port_bytes);
            proof {
                assert(out@ == spec_encode(*m));
            }
        },
        Message::SetPower { level, duration } => {
            let mut level_bytes = u16_to_le_bytes(*level);
            out.append(&mut level_bytes);
            let mut duration_bytes = u32_to_le_bytes(*duration);
            out.append(&mut duration_bytes);
            proof {
                assert(out@ == spec_encode(*m));
            }
        },
        Message::SetColor { hue, saturation, brightness, kelvin, duration } => {
            out.push(0u8);
            let mut hue_bytes = u16_to_le_bytes(*hue);
            out.append(&mut hue_bytes);
            let mut saturation_bytes = u16_to_le_bytes(*saturation);
            out.append(&mut saturation_bytes);
            let mut brightness_bytes = u16_to_le_bytes(*brightness);
            out.append(&mut brightness_bytes);
            let mut kelvin_bytes = u16_to_le_bytes(*kelvin);
            out.append(&mut kelvin_bytes);
            let mut duration_bytes = u32_to_le_bytes(*duration);
            out.append(&mut duration_bytes);
            proof {
                assert(out@ == spec_encode(*m));
            }
        },
    }
    out
}

/// The wire type tag of a message.
pub fn message_tag(m: &Message) -> (r: u16)
    ensures
        r == spec_message_tag(*m),
{
    match m {
        Message::GetService => GET_SERVICE_TAG,
        Message::StateService { .. } => STATE_SERVICE_TAG,
        Message::SetColor { .. } => SET_COLOR_TAG,
        Message::SetPower { .. } => SET_POWER_TAG,
    }
}

/// Decodes wire bytes into the message they encode. Bytes beyond the
/// declared body are ignored, so a payload cut out of a larger frame
/// decodes without being trimmed first.
pub fn decode(b: &[u8]) -> (r: Result<Message, DecodeError>)
    ensures
        r == spec_decode(b@),
{
    if b.len() < MESSAGE_PREAMBLE_BYTES {
        return Err(DecodeError::TruncatedFrame);
    }
    let tag = u16_from_le_bytes(slice_subrange(b, 0, 2));
    if tag == GET_SERVICE_TAG {
        Ok(Message::GetService)
    } else if tag == STATE_SERVICE_TAG {
        if b.len() < 9 {
            Err(DecodeError::TruncatedFrame)
        } else {
            let service_type = *slice_index_get(b, 4);
            let port = u32_from_le_bytes(slice_subrange(b, 5, 9));
            Ok(Message::StateService { service_type, port })
        }
    } else if tag == SET_POWER_TAG {
        if b.len() < 10 {
            Err(DecodeError::TruncatedFrame)
        } else {
            let level = u16_from_le_bytes(slice_subrange(b, 4, 6));
            let duration = u32_from_le_bytes(slice_subrange(b, 6, 10));
            Ok(Message::SetPower { level, duration })
        }
    } else if tag == SET_COLOR_TAG {
        if b.len() < 17 {
            Err(DecodeError::TruncatedFrame)
        } else {
            let hue = u16_from_le_bytes(slice_subrange(b, 5, 7));
            let saturation = u16_from_le_bytes(slice_subrange(b, 7, 9));
            let brightness = u16_from_le_bytes(slice_subrange(b, 9, 11));
            let kelvin = u16_from_le_bytes(slice_subrange(b, 11, 13));
            let duration = u32_from_le_bytes(slice_subrange(b, 13, 17));
            Ok(Message::SetColor { hue, saturation, brightness, kelvin, duration })
        }
    } else {
        Err(DecodeError::UnknownMessageType)
    }
}

/// The length of a message's encoding, by variant.
pub open spec fn spec_encoded_len(m: Message) -> int {
    match m {
        Message::GetService => 4,
        Message::StateService { .. } => 9,
        Message::SetPower { .. } => 10,
        Message::SetColor { .. } => 17,
    }
}

/// Every encoding is as long as its variant's fixed layout says, so no
/// encoded message outgrows a frame.
pub proof fn lemma_encode_len(m: Message)
    ensures
        spec_encode(m).len() == spec_encoded_len(m),
        spec_encode(m).len() <= 17,
{
    lemma_auto_spec_u16_to_from_le_bytes();
    lemma_auto_spec_u32_to_from_le_bytes();
}

/// Round trip: decoding an encoded message gives the message back, for
/// every constructible message.
pub proof fn lemma_codec_round_trip(m: Message)
    ensures
        spec_decode(spec_encode(m)) == Ok::<Message, DecodeError>(m),
{
    lemma_auto_spec_u16_to_from_le_bytes();
    lemma_auto_spec_u32_to_from_le_bytes();
    let b = spec_encode(m);
    assert(b.subrange(0, 2) =~= spec_u16_to_le_bytes(spec_message_tag(m)));
    match m {
        Message::GetService => {
        },
        Message::StateService { service_type, port } => {
            assert(b[4] == service_type);
            assert(b.subrange(5, 9) =~= spec_u32_to_le_bytes(port));
        },
        Message::SetPower { level, duration } => {
            assert(b.subrange(4, 6) =~= spec_u16_to_le_bytes(level));
            assert(b.subrange(6, 10) =~= spec_u32_to_le_bytes(duration));
        },
        Message::SetColor { hue, saturation, brightness, kelvin, duration } => {
            assert(b.subrange(5, 7) =~= spec_u16_to_le_bytes(hue));
            assert(b.subrange(7, 9) =~= spec_u16_to_le_bytes(saturation));
            assert(b.subrange(9, 11) =~= spec_u16_to_le_bytes(brightness));
            assert(b.subrange(11, 13) =~= spec_u16_to_le_bytes(kelvin));
            assert(b.subrange(13, 17) =~= spec_u32_to_le_bytes(duration));
        },
    }
}

} // verus!
