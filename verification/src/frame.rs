//! Frame builder: a full packet from a message and addressing options.
//!
//! A packed frame is a 32-byte addressing header followed by the encoded
//! message. The header carries the declared total size, the protocol
//! number with the addressable flag, the source identifier, the target
//! identity (zero-filled for a broadcast), the acknowledgment-request
//! flag, a sequence byte and the reserved fields the wire format
//! mandates.

use crate::codec::{
    spec_decode, spec_encode, spec_encoded_len, lemma_encode_len, lemma_codec_round_trip, encode,
    DecodeError, Message,
};
use vstd::bytes::*;
use vstd::prelude::*;
use vstd::slice::*;

verus! {

/// Bytes of the addressing header that precedes the encoded message.
pub const FRAME_HEADER_BYTES: usize = 32;

/// Upper bound on a whole frame, set by the receive buffer the protocol
/// assumes downstream.
pub const MAX_FRAME_BYTES: usize = 1024;

/// The protocol number carried in the flags field of every frame.
pub const PROTOCOL_NUMBER: u16 = 1024;

/// Value of the addressable bit inside the flags field.
pub const ADDRESSABLE_BIT: u16 = 4096;

/// The well-known UDP port devices listen on, used for broadcast
/// discovery and as the destination of unicast commands.
pub const DEVICE_PORT: u16 = 56700;

/// The fixed source identifier this application stamps on every frame,
/// correlating requests with replies.
pub const SOURCE_IDENTIFIER: u32 = 0x72757374;

/// Per-send parameters: an optional target identity (absent means
/// broadcast), a source identifier correlating requests and replies, a
/// flag asking the receiver for an acknowledgment or response, and a
/// sequence byte.
#[derive(Clone, Copy, Debug)]
pub struct BuildOptions {
    pub target: Option<u64>,
    pub source: u32,
    pub response_required: bool,
    pub sequence: u8,
}

impl Default for BuildOptions {
    /// Untargeted, source zero, no response asked, sequence zero.
    fn default() -> (r: Self)
        ensures
            r.target is None,
            r.source == 0,
            !r.response_required,
            r.sequence == 0,
    {
        BuildOptions { target: None, source: 0, response_required: false, sequence: 0 }
    }
}

/// Why a frame could not be built.
#[derive(Clone, Copy, Debug, PartialEq, Eq, Structural)]
pub enum BuildError {
    /// The payload would overflow the protocol's maximum frame size.
    PayloadTooLarge,
}

/// The addressing fields of a frame, as plain values.
#[derive(Clone, Copy, Debug, PartialEq, Eq, Structural)]
pub struct FrameHeader {
    /// Declared total size: header bytes plus payload bytes.
    pub size: u16,
    /// Set when the frame is addressed to one device.
    pub addressable: bool,
    pub source: u32,
    /// The addressed device's identity; zero for a broadcast.
    pub target: u64,
    pub response_required: bool,
    pub sequence: u8,
}

/// A complete packet: addressing header and encoded message.
#[derive(Debug)]
pub struct Frame {
    pub header: FrameHeader,
    pub payload: Vec<u8>,
}

/// The target field a frame carries for given options: the identity, or
/// zero when the send is a broadcast.
pub open spec fn spec_target_field(o: BuildOptions) -> u64 {
    match o.target {
        Some(id) => id,
        None => 0,
    }
}

/// The header built from options and a payload length.
pub open spec fn spec_header(o: BuildOptions, payload_len: int) -> FrameHeader {
    FrameHeader {
        size: (FRAME_HEADER_BYTES + payload_len) as u16,
        addressable: o.target is Some,
        source: o.source,
        target: spec_target_field(o),
        response_required: o.response_required,
        sequence: o.sequence,
    }
}

/// A frame is well formed when its declared size is the header bytes
/// plus the payload bytes and the whole frame fits the maximum size.
pub open spec fn frame_wf(f: Frame) -> bool {
    &&& f.header.size == FRAME_HEADER_BYTES + f.payload@.len()
    &&& FRAME_HEADER_BYTES + f.payload@.len() <= MAX_FRAME_BYTES
}

/// The 16-bit flags field: protocol number, with the addressable bit
/// when the frame is targeted.
pub open spec fn spec_flags_field(addressable: bool) -> u16 {
    if addressable {
        (PROTOCOL_NUMBER + ADDRESSABLE_BIT) as u16
    } else {
        PROTOCOL_NUMBER
    }
}

/// The byte holding the acknowledgment-request flag.
pub open spec fn spec_response_byte(response_required: bool) -> u8 {
    if response_required {
        1u8
    } else {
        0u8
    }
}

/// A packed frame: every header field at its wire offset, little-endian,
/// reserved bytes zero, payload last.
pub open spec fn spec_pack(h: FrameHeader, payload: Seq<u8>) -> Seq<u8> {
    spec_u16_to_le_bytes(h.size) + spec_u16_to_le_bytes(spec_flags_field(h.addressable))
        + spec_u32_to_le_bytes(h.source) + spec_u64_to_le_bytes(h.target) + seq![
        0u8,
        0u8,
        0u8,
        0u8,
        0u8,
        0u8,
    ] + seq![spec_response_byte(h.response_required), h.sequence] + seq![
        0u8,
        0u8,
        0u8,
        0u8,
        0u8,
        0u8,
        0u8,
        0u8,
    ] + payload
}

/// What stripping the addressing header from received bytes yields.
pub open spec fn spec_strip_header(b: Seq<u8>) -> Result<Seq<u8>, DecodeError> {
    if b.len() < FRAME_HEADER_BYTES {
        Err(DecodeError::TruncatedFrame)
    } else {
        Ok(b.subrange(FRAME_HEADER_BYTES as int, b.len() as int))
    }
}

/// The target identity a received frame names.
pub open spec fn spec_frame_target(b: Seq<u8>) -> Result<u64, DecodeError> {
    if b.len() < FRAME_HEADER_BYTES {
        Err(DecodeError::TruncatedFrame)
    } else {
        Ok(spec_u64_from_le_bytes(b.subrange(8, 16)))
    }
}

/// Assembles a frame around an already encoded payload. Fails exactly
/// when header and payload together would overflow the maximum frame
/// size.
pub fn frame_from_payload(options: &BuildOptions, payload: Vec<u8>) -> (r: Result<
    Frame,
    BuildError,
>)
    ensures
        r is Ok <==> FRAME_HEADER_BYTES + payload@.len() <= MAX_FRAME_BYTES,
        r matches Ok(f) ==> {
            &&& f.header == spec_header(*options, payload@.len() as int)
            &&& f.payload@ == payload@
            &&& frame_wf(f)
        },
        r matches Err(e) ==> e == BuildError::PayloadTooLarge,
{
    if payload.len() > MAX_FRAME_BYTES - FRAME_HEADER_BYTES {
        return Err(BuildError::PayloadTooLarge);
    }
    let (addressable, target) = match options.target {
        Some(id) => (true, id),
        None => (false, 0u64),
    };
    let header = FrameHeader {
        size: (FRAME_HEADER_BYTES + payload.len()) as u16,
        addressable,
        source: options.source,
        target,
        response_required: options.response_required,
        sequence: options.sequence,
    };
    Ok(Frame { header, payload })
}

/// Builds the frame that carries a message under the given options.
/// Every supported message encodes well below the frame limit, so the
/// build always succeeds; the targeted form sets the addressable flag
/// and the target field to the identity, the broadcast form leaves the
/// flag unset and the target zero.
pub fn build(options: &BuildOptions, m: &Message) -> (r: Result<Frame, BuildError>)
    ensures
        r is Ok,
        r matches Ok(f) ==> {
            &&& f.header == spec_header(*options, spec_encoded_len(*m))
            &&& f.payload@ == spec_encode(*m)
            &&& frame_wf(f)
            &&& (f.header.addressable <==> options.target is Some)
            &&& f.header.target == spec_target_field(*options)
        },
{
    let payload = encode(m);
    proof {
        lemma_encode_len(*m);
    }
    frame_from_payload(options, payload)
}

/// Serializes a frame: header fields at their wire offsets, then the
/// payload. The result is exactly as long as the header's declared size
/// field says.
pub fn pack(f: &Frame) -> (r: Vec<u8>)
    requires
        frame_wf(*f),
    ensures
        r@ == spec_pack(f.header, f.payload@),
        r@.len() == f.header.size,
{
    let mut out = u16_to_le_bytes(f.header.size);
    let flags: u16 = if f.header.addressable {
        PROTOCOL_NUMBER + ADDRESSABLE_BIT
    } else {
        PROTOCOL_NUMBER
    };
    let mut flags_bytes = u16_to_le_bytes(flags);
    out.append(&mut flags_bytes);
    let mut source_bytes = u32_to_le_bytes(f.header.source);
    out.append(&mut source_bytes);
    let mut target_bytes = u64_to_le_bytes(f.header.target);
    out.append(&mut target_bytes);
    let mut i: usize = 0;
    while i < 6
        invariant
            i <= 6,
            out@ == spec_u16_to_le_bytes(f.header.size) + spec_u16_to_le_bytes(
                spec_flags_field(f.header.addressable),
            ) + spec_u32_to_le_bytes(f.header.source) + spec_u64_to_le_bytes(f.header.target)
                + Seq::<u8>::new(i as nat, |j: int| 0u8),
        decreases 6 - i,
    {
        out.push(0u8);
        proof {
            assert(Seq::<u8>::new((i + 1) as nat, |j: int| 0u8) =~= Seq::<u8>::new(
                i as nat,
                |j: int| 0u8,
            ).push(0u8));
        }
        i = i + 1;
    }
    proof {
        assert(Seq::<u8>::new(6nat, |j: int| 0u8) =~= seq![0u8, 0u8, 0u8, 0u8, 0u8, 0u8]);
    }
    out.push(if f.header.response_required {
        1u8
    } else {
        0u8
    });
    out.push(f.header.sequence);
    let mut k: usize = 0;
    let ghost prefix = out@;
    while k < 8
        invariant
            k <= 8,
            out@ == prefix + Seq::<u8>::new(k as nat, |j: int| 0u8),
        decreases 8 - k,
    {
        out.push(0u8);
        proof {
            assert(Seq::<u8>::new((k + 1) as nat, |j: int| 0u8) =~= Seq::<u8>::new(
                k as nat,
                |j: int| 0u8,
            ).push(0u8));
        }
        k = k + 1;
    }
    proof {
        assert(Seq::<u8>::new(8nat, |j: int| 0u8) =~= seq![0u8, 0u8, 0u8, 0u8, 0u8, 0u8, 0u8, 0u8]);
    }
    out.extend_from_slice(f.payload.as_slice());
    proof {
        lemma_auto_spec_u16_to_from_le_bytes();
        lemma_auto_spec_u32_to_from_le_bytes();
        lemma_auto_spec_u64_to_from_le_bytes();
        assert(out@ =~= spec_pack(f.header, f.payload@));
    }
    out
}

/// Cuts the encoded message out of received frame bytes, dropping the
/// 32-byte addressing header.
pub fn strip_header(b: &[u8]) -> (r: Result<Vec<u8>, DecodeError>)
    ensures
        match r {
            Ok(v) => spec_strip_header(b@) == Ok::<Seq<u8>, DecodeError>(v@),
            Err(e) => spec_strip_header(b@) == Err::<Seq<u8>, DecodeError>(e),
        },
{
    if b.len() < FRAME_HEADER_BYTES {
        Err(DecodeError::TruncatedFrame)
    } else {
        let tail = slice_subrange(b, FRAME_HEADER_BYTES, b.len());
        Ok(slice_to_vec(tail))
    }
}

/// Reads the target identity out of received frame bytes.
pub fn frame_target(b: &[u8]) -> (r: Result<u64, DecodeError>)
    ensures
        r == spec_frame_target(b@),
{
    if b.len() < FRAME_HEADER_BYTES {
        Err(DecodeError::TruncatedFrame)
    } else {
        Ok(u64_from_le_bytes(slice_subrange(b, 8, 16)))
    }
}

/// The length of a packed frame: the header bytes plus the payload.
pub proof fn lemma_pack_len(h: FrameHeader, payload: Seq<u8>)
    ensures
        spec_pack(h, payload).len() == FRAME_HEADER_BYTES + payload.len(),
{
    lemma_auto_spec_u16_to_from_le_bytes();
    lemma_auto_spec_u32_to_from_le_bytes();
    lemma_auto_spec_u64_to_from_le_bytes();
}

/// Frame size integrity: for every message and options, the header's
/// declared size field equals the length of the packed frame.
pub proof fn lemma_frame_size_integrity(o: BuildOptions, m: Message)
    ensures
        ({
            let h = spec_header(o, spec_encoded_len(m));
            spec_pack(h, spec_encode(m)).len() == h.size
        }),
{
    lemma_encode_len(m);
    lemma_pack_len(spec_header(o, spec_encoded_len(m)), spec_encode(m));
}

/// Round trip: packing a built frame, stripping the addressing header
/// and decoding gives back the message that was built, for every
/// constructible message and every choice of options.
pub proof fn lemma_frame_round_trip(o: BuildOptions, m: Message)
    ensures
        ({
            let h = spec_header(o, spec_encoded_len(m));
            &&& spec_strip_header(spec_pack(h, spec_encode(m))) == Ok::<Seq<u8>, DecodeError>(
                spec_encode(m),
            )
            &&& spec_decode(spec_encode(m)) == Ok::<Message, DecodeError>(m)
        }),
{
    let h = spec_header(o, spec_encoded_len(m));
    let packed = spec_pack(h, spec_encode(m));
    lemma_encode_len(m);
    lemma_pack_len(h, spec_encode(m));
    lemma_auto_spec_u16_to_from_le_bytes();
    lemma_auto_spec_u32_to_from_le_bytes();
    lemma_auto_spec_u64_to_from_le_bytes();
    assert(packed.subrange(FRAME_HEADER_BYTES as int, packed.len() as int) =~= spec_encode(m));
    lemma_codec_round_trip(m);
}

/// A targeted frame names its device: stripping the header of a packed
/// targeted frame and reading its target field gives the identity the
/// options named.
pub proof fn lemma_frame_target_of_build(o: BuildOptions, m: Message)
    ensures
        ({
            let h = spec_header(o, spec_encoded_len(m));
            spec_frame_target(spec_pack(h, spec_encode(m))) == Ok::<u64, DecodeError>(
                spec_target_field(o),
            )
        }),
{
    let h = spec_header(o, spec_encoded_len(m));
    let packed = spec_pack(h, spec_encode(m));
    lemma_encode_len(m);
    lemma_pack_len(h, spec_encode(m));
    lemma_auto_spec_u16_to_from_le_bytes();
    lemma_auto_spec_u32_to_from_le_bytes();
    lemma_auto_spec_u64_to_from_le_bytes();
    assert(packed.subrange(8, 16) =~= spec_u64_to_le_bytes(h.target));
}

} // verus!
