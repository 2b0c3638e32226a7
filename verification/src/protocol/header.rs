//! The fixed 24-byte frame header and its codec.
//!
//! Layout, every multi-byte integer big-endian:
//!
//! ```text
//! 0..4    magic tag "MSIP"
//! 4       version
//! 5       flags
//! 6..8    frame type code
//! 8..10   message kind code
//! 10..12  reserved: written as zero, ignored when read
//! 12..16  payload length in bytes
//! 16..24  message id
//! ```

use vstd::prelude::*;
use vstd::std_specs::convert::TryFromSpecImpl;
use crate::protocol::flags::{only_known_bits, FrameFlags};
use crate::protocol::wire::{
    be_u16, be_u32, be_u64, be_value, lemma_be_round_trip, lemma_be_u16_of_value,
    lemma_be_u32_of_value, lemma_be_u64_of_value, u16_from_be, u16_to_be, u32_from_be, u32_to_be,
    u64_from_be, u64_to_be,
};

verus! {

/// The tag that opens every header: ASCII "MSIP".
pub const MSIP_MAGIC: [u8; 4] = [0x4D, 0x53, 0x49, 0x50];

/// The one protocol version that is spoken.
pub const MSIP_VERSION: u8 = 1;

/// Length of an encoded header in bytes.
pub const HEADER_SIZE: usize = 24;

/// What a frame is for. The set is closed: a code outside it does not decode.
#[derive(Debug, Clone, Copy, PartialEq, Eq, Structural)]
pub enum FrameType {
    Hello,
    Subscribe,
    Unsubscribe,
    Publish,
    Event,
    Ack,
    Error,
    Ping,
    Pong,
    Close,
}

impl FrameType {
    /// The code that stands for this frame type on the wire.
    pub open spec fn spec_code(&self) -> u16 {
        match self {
            FrameType::Hello => 0x0001,
            FrameType::Subscribe => 0x0002,
            FrameType::Unsubscribe => 0x0003,
            FrameType::Publish => 0x0004,
            FrameType::Event => 0x0005,
            FrameType::Ack => 0x0006,
            FrameType::Error => 0x0007,
            FrameType::Ping => 0x0008,
            FrameType::Pong => 0x0009,
            FrameType::Close => 0x000A,
        }
    }

    /// The frame type that `code` stands for, if any.
    pub open spec fn of_code(code: u16) -> Option<FrameType> {
        if code == 0x0001 {
            Some(FrameType::Hello)
        } else if code == 0x0002 {
            Some(FrameType::Subscribe)
        } else if code == 0x0003 {
            Some(FrameType::Unsubscribe)
        } else if code == 0x0004 {
            Some(FrameType::Publish)
        } else if code == 0x0005 {
            Some(FrameType::Event)
        } else if code == 0x0006 {
            Some(FrameType::Ack)
        } else if code == 0x0007 {
            Some(FrameType::Error)
        } else if code == 0x0008 {
            Some(FrameType::Ping)
        } else if code == 0x0009 {
            Some(FrameType::Pong)
        } else if code == 0x000A {
            Some(FrameType::Close)
        } else {
            None
        }
    }

    /// The code that stands for this frame type on the wire.
    #[verifier::when_used_as_spec(spec_code)]
    pub fn code(&self) -> (c: u16)
        ensures
            c == self.spec_code(),
            FrameType::of_code(c) == Some(*self),
    {
        match self {
            FrameType::Hello => 0x0001,
            FrameType::Subscribe => 0x0002,
            FrameType::Unsubscribe => 0x0003,
            FrameType::Publish => 0x0004,
            FrameType::Event => 0x0005,
            FrameType::Ack => 0x0006,
            FrameType::Error => 0x0007,
            FrameType::Ping => 0x0008,
            FrameType::Pong => 0x0009,
            FrameType::Close => 0x000A,
        }
    }
}

impl TryFrom<u16> for FrameType {
    type Error = ();

    /// The frame type that `value` stands for; an unknown code is an error.
    fn try_from(value: u16) -> (r: Result<Self, ()>) {
        match value {
            0x0001 => Ok(FrameType::Hello),
            0x0002 => Ok(FrameType::Subscribe),
            0x0003 => Ok(FrameType::Unsubscribe),
            0x0004 => Ok(FrameType::Publish),
            0x0005 => Ok(FrameType::Event),
            0x0006 => Ok(FrameType::Ack),
            0x0007 => Ok(FrameType::Error),
            0x0008 => Ok(FrameType::Ping),
            0x0009 => Ok(FrameType::Pong),
            0x000A => Ok(FrameType::Close),
            _ => Err(()),
        }
    }
}

impl TryFromSpecImpl<u16> for FrameType {
    open spec fn obeys_try_from_spec() -> bool {
        true
    }

    open spec fn try_from_spec(value: u16) -> Result<Self, ()> {
        match FrameType::of_code(value) {
            Some(t) => Ok(t),
            None => Err(()),
        }
    }
}

/// What a frame carries. The set is closed: a code outside it does not decode.
#[derive(Debug, Clone, Copy, PartialEq, Eq, Structural)]
pub enum MessageKind {
    Event,
    Command,
    State,
    Log,
    Metric,
}

impl MessageKind {
    /// The code that stands for this message kind on the wire.
    pub open spec fn spec_code(&self) -> u16 {
        match self {
            MessageKind::Event => 0x0001,
            MessageKind::Command => 0x0002,
            MessageKind::State => 0x0003,
            MessageKind::Log => 0x0004,
            MessageKind::Metric => 0x0005,
        }
    }

    /// The message kind that `code` stands for, if any.
    pub open spec fn of_code(code: u16) -> Option<MessageKind> {
        if code == 0x0001 {
            Some(MessageKind::Event)
        } else if code == 0x0002 {
            Some(MessageKind::Command)
        } else if code == 0x0003 {
            Some(MessageKind::State)
        } else if code == 0x0004 {
            Some(MessageKind::Log)
        } else if code == 0x0005 {
            Some(MessageKind::Metric)
        } else {
            None
        }
    }

    /// The code that stands for this message kind on the wire.
    #[verifier::when_used_as_spec(spec_code)]
    pub fn code(&self) -> (c: u16)
        ensures
            c == self.spec_code(),
            MessageKind::of_code(c) == Some(*self),
    {
        match self {
            MessageKind::Event => 0x0001,
            MessageKind::Command => 0x0002,
            MessageKind::State => 0x0003,
            MessageKind::Log => 0x0004,
            MessageKind::Metric => 0x0005,
        }
    }
}

impl TryFrom<u16> for MessageKind {
    type Error = ();

    /// The message kind that `value` stands for; an unknown code is an error.
    fn try_from(value: u16) -> (r: Result<Self, ()>) {
        match value {
            0x0001 => Ok(MessageKind::Event),
            0x0002 => Ok(MessageKind::Command),
            0x0003 => Ok(MessageKind::State),
            0x0004 => Ok(MessageKind::Log),
            0x0005 => Ok(MessageKind::Metric),
            _ => Err(()),
        }
    }
}

impl TryFromSpecImpl<u16> for MessageKind {
    open spec fn obeys_try_from_spec() -> bool {
        true
    }

    open spec fn try_from_spec(value: u16) -> Result<Self, ()> {
        match MessageKind::of_code(value) {
            Some(k) => Ok(k),
            None => Err(()),
        }
    }
}

/// Why 24 bytes are not a header. The checks run in the order of the variants,
/// and the first that fails names the error.
#[derive(Debug, Clone, Copy, PartialEq, Eq, Structural)]
pub enum DecodeError {
    /// The first four bytes are not the magic tag.
    InvalidMagic,
    /// The version byte is not the supported one.
    UnsupportedVersion,
    /// The flag byte sets a bit that the protocol does not define.
    InvalidFlags,
    /// The frame type code is not a known one.
    InvalidFrameType,
    /// The message kind code is not a known one.
    InvalidMessageKind,
}

impl DecodeError {
    /// A short description of the error.
    pub fn message(&self) -> (s: &'static str)
        ensures
            s@ == match self {
                DecodeError::InvalidMagic => "invalid magic"@,
                DecodeError::UnsupportedVersion => "unsupported version"@,
                DecodeError::InvalidFlags => "invalid flags"@,
                DecodeError::InvalidFrameType => "invalid frame type"@,
                DecodeError::InvalidMessageKind => "invalid message kind"@,
            },
    {
        match self {
            DecodeError::InvalidMagic => "invalid magic",
            DecodeError::UnsupportedVersion => "unsupported version",
            DecodeError::InvalidFlags => "invalid flags",
            DecodeError::InvalidFrameType => "invalid frame type",
            DecodeError::InvalidMessageKind => "invalid message kind",
        }
    }
}

/// The structured prefix of a frame.
///
/// `payload_len` is the number of payload bytes that follow the header on the
/// wire; the codec carries it and does not judge it.
#[derive(Debug, Clone, Copy, PartialEq, Eq)]
pub struct Header {
    pub magic: [u8; 4],
    pub version: u8,
    pub flags: FrameFlags,
    pub frame_type: FrameType,
    pub msg_kind: MessageKind,
    pub payload_len: u32,
    pub msg_id: u64,
}

impl Header {
    /// The header carries the protocol's tag and version and only defined
    /// flags: it is one that a decoder accepts.
    pub open spec fn wf(self) -> bool {
        &&& self.magic == MSIP_MAGIC
        &&& self.version == MSIP_VERSION
        &&& self.flags.wf()
    }

    /// The header that `new` builds.
    pub open spec fn spec_new(
        frame_type: FrameType,
        msg_kind: MessageKind,
        payload_len: u32,
        msg_id: u64,
        flags: FrameFlags,
    ) -> Header {
        Header {
            magic: MSIP_MAGIC,
            version: MSIP_VERSION,
            flags,
            frame_type,
            msg_kind,
            payload_len,
            msg_id,
        }
    }

    /// The 24 bytes that stand for this header on the wire.
    pub open spec fn spec_encode(self) -> Seq<u8> {
        self.magic@ + seq![self.version, self.flags.bits()] + be_u16(self.frame_type.code())
            + be_u16(self.msg_kind.code()) + seq![0u8, 0u8] + be_u32(self.payload_len) + be_u64(
            self.msg_id,
        )
    }

    /// The header that 24 bytes stand for, or the first check that they fail:
    /// magic, version, flags, frame type, message kind, in that order. The
    /// reserved bytes and the payload length are not judged.
    pub open spec fn spec_decode(buf: Seq<u8>) -> Result<Header, DecodeError>
        recommends
            buf.len() == HEADER_SIZE,
    {
        if buf.subrange(0, 4) != MSIP_MAGIC@ {
            Err(DecodeError::InvalidMagic)
        } else if buf[4] != MSIP_VERSION {
            Err(DecodeError::UnsupportedVersion)
        } else if !only_known_bits(buf[5]) {
            Err(DecodeError::InvalidFlags)
        } else {
            match FrameType::of_code(be_value(buf.subrange(6, 8)) as u16) {
                None => Err(DecodeError::InvalidFrameType),
                Some(frame_type) => match MessageKind::of_code(
                    be_value(buf.subrange(8, 10)) as u16,
                ) {
                    None => Err(DecodeError::InvalidMessageKind),
                    Some(msg_kind) => Ok(
                        Header {
                            magic: MSIP_MAGIC,
                            version: MSIP_VERSION,
                            flags: FrameFlags::spec_from_bits_truncate(buf[5]),
                            frame_type,
                            msg_kind,
                            payload_len: be_value(buf.subrange(12, 16)) as u32,
                            msg_id: be_value(buf.subrange(16, 24)) as u64,
                        },
                    ),
                },
            }
        }
    }

    /// A header of the supported version, tagged with the protocol's magic.
    #[verifier::when_used_as_spec(spec_new)]
    pub fn new(
        frame_type: FrameType,
        msg_kind: MessageKind,
        payload_len: u32,
        msg_id: u64,
        flags: FrameFlags,
    ) -> (h: Header)
        ensures
            h == Header::spec_new(frame_type, msg_kind, payload_len, msg_id, flags),
            h.wf(),
    {
        proof {
            use_type_invariant(flags);
        }
        Header {
            magic: MSIP_MAGIC,
            version: MSIP_VERSION,
            flags,
            frame_type,
            msg_kind,
            payload_len,
            msg_id,
        }
    }

    /// Writes the header as its 24 bytes. A well-formed header decodes from
    /// them again.
    pub fn encode(&self) -> (buf: [u8; HEADER_SIZE])
        ensures
            buf@ == self.spec_encode(),
            self.wf() ==> Header::spec_decode(buf@) == Ok::<Header, DecodeError>(*self),
    {
        let ft = u16_to_be(self.frame_type.code());
        let mk = u16_to_be(self.msg_kind.code());
        let len = u32_to_be(self.payload_len);
        let id = u64_to_be(self.msg_id);
        let buf = [
            self.magic[0],
            self.magic[1],
            self.magic[2],
            self.magic[3],
            self.version,
            self.flags.bits(),
            ft[0],
            ft[1],
            mk[0],
            mk[1],
            0,
            0,
            len[0],
            len[1],
            len[2],
            len[3],
            id[0],
            id[1],
            id[2],
            id[3],
            id[4],
            id[5],
            id[6],
            id[7],
        ];
        proof {
            assert(buf@ =~= self.spec_encode());
            if self.wf() {
                lemma_decode_encode(*self);
            }
        }
        buf
    }

    /// Reads a header from its 24 bytes, or names the first check that they
    /// fail: magic, version, flags, frame type, message kind.
    pub fn decode(buf: &[u8; HEADER_SIZE]) -> (r: Result<Header, DecodeError>)
        ensures
            r == Header::spec_decode(buf@),
            r matches Ok(h) ==> h.wf(),
    {
        if buf[0] != MSIP_MAGIC[0] || buf[1] != MSIP_MAGIC[1] || buf[2] != MSIP_MAGIC[2] || buf[3]
            != MSIP_MAGIC[3] {
            assert(buf@.subrange(0, 4) != MSIP_MAGIC@) by {
                if buf@.subrange(0, 4) == MSIP_MAGIC@ {
                    assert(forall|i: int| 0 <= i < 4 ==> buf@.subrange(0, 4)[i] == MSIP_MAGIC@[i]);
                }
            }
            return Err(DecodeError::InvalidMagic);
        }
        assert(buf@.subrange(0, 4) =~= MSIP_MAGIC@);
        if buf[4] != MSIP_VERSION {
            return Err(DecodeError::UnsupportedVersion);
        }
        let flags = match FrameFlags::from_bits(buf[5]) {
            Some(flags) => flags,
            None => {
                return Err(DecodeError::InvalidFlags);
            },
        };
        assert(buf@.subrange(6, 8) =~= [buf[6], buf[7]]@);
        let frame_type = match FrameType::try_from(u16_from_be([buf[6], buf[7]])) {
            Ok(frame_type) => frame_type,
            Err(_) => {
                return Err(DecodeError::InvalidFrameType);
            },
        };
        assert(buf@.subrange(8, 10) =~= [buf[8], buf[9]]@);
        let msg_kind = match MessageKind::try_from(u16_from_be([buf[8], buf[9]])) {
            Ok(msg_kind) => msg_kind,
            Err(_) => {
                return Err(DecodeError::InvalidMessageKind);
            },
        };
        assert(buf@.subrange(12, 16) =~= [buf[12], buf[13], buf[14], buf[15]]@);
        assert(buf@.subrange(16, 24) =~= [
            buf[16],
            buf[17],
            buf[18],
            buf[19],
            buf[20],
            buf[21],
            buf[22],
            buf[23],
        ]@);
        Ok(
            Header {
                magic: MSIP_MAGIC,
                version: MSIP_VERSION,
                flags,
                frame_type,
                msg_kind,
                payload_len: u32_from_be([buf[12], buf[13], buf[14], buf[15]]),
                msg_id: u64_from_be(
                    [buf[16], buf[17], buf[18], buf[19], buf[20], buf[21], buf[22], buf[23]],
                ),
            },
        )
    }
}

impl TryFrom<[u8; HEADER_SIZE]> for Header {
    type Error = DecodeError;

    /// Reads a header from its 24 bytes, as [`Header::decode`] does.
    fn try_from(buf: [u8; HEADER_SIZE]) -> (r: Result<Self, DecodeError>) {
        Header::decode(&buf)
    }
}

impl TryFromSpecImpl<[u8; HEADER_SIZE]> for Header {
    open spec fn obeys_try_from_spec() -> bool {
        true
    }

    open spec fn try_from_spec(buf: [u8; HEADER_SIZE]) -> Result<Self, DecodeError> {
        Header::spec_decode(buf@)
    }
}

/// Decoding the encoding of a well-formed header gives the header back.
pub proof fn lemma_decode_encode(h: Header)
    requires
        h.wf(),
    ensures
        h.spec_encode().len() == HEADER_SIZE,
        Header::spec_decode(h.spec_encode()) == Ok::<Header, DecodeError>(h),
{
    let buf = h.spec_encode();
    assert(buf.len() == 24);
    assert(buf.subrange(0, 4) =~= MSIP_MAGIC@);
    assert(buf[4] == MSIP_VERSION);
    assert(buf[5] == h.flags.bits());
    FrameFlags::lemma_truncate_own_bits(h.flags);
    assert(buf.subrange(6, 8) =~= be_u16(h.frame_type.code()));
    assert(buf.subrange(8, 10) =~= be_u16(h.msg_kind.code()));
    assert(buf.subrange(12, 16) =~= be_u32(h.payload_len));
    assert(buf.subrange(16, 24) =~= be_u64(h.msg_id));
    lemma_be_round_trip(h.frame_type.code(), h.payload_len, h.msg_id);
    lemma_be_round_trip(h.msg_kind.code(), h.payload_len, h.msg_id);
}

/// Which bytes are rejected, and as what. The magic is judged first, then the
/// version, the flag byte, the frame type code and the message kind code;
/// bytes that pass all five decode. Nothing else is judged: not the reserved
/// bytes, not the payload length, not the message id.
pub proof fn lemma_decode_rejects(buf: Seq<u8>)
    requires
        buf.len() == HEADER_SIZE,
    ensures
        ({
            let magic_ok = buf.subrange(0, 4) == MSIP_MAGIC@;
            let version_ok = buf[4] == MSIP_VERSION;
            let flags_ok = only_known_bits(buf[5]);
            let type_ok = FrameType::of_code(be_value(buf.subrange(6, 8)) as u16) is Some;
            let kind_ok = MessageKind::of_code(be_value(buf.subrange(8, 10)) as u16) is Some;
            let decoded = Header::spec_decode(buf);
            &&& decoded == Err::<Header, DecodeError>(DecodeError::InvalidMagic) <==> !magic_ok
            &&& decoded == Err::<Header, DecodeError>(DecodeError::UnsupportedVersion) <==> magic_ok
                && !version_ok
            &&& decoded == Err::<Header, DecodeError>(DecodeError::InvalidFlags) <==> magic_ok
                && version_ok && !flags_ok
            &&& decoded == Err::<Header, DecodeError>(DecodeError::InvalidFrameType) <==> magic_ok
                && version_ok && flags_ok && !type_ok
            &&& decoded == Err::<Header, DecodeError>(DecodeError::InvalidMessageKind) <==> magic_ok
                && version_ok && flags_ok && type_ok && !kind_ok
            &&& decoded is Ok <==> magic_ok && version_ok && flags_ok && type_ok && kind_ok
        }),
{
}

/// Round trip: for every frame type, message kind, set of defined flags,
/// payload length and message id, the header that `new` builds decodes from
/// its encoding as itself.
pub proof fn lemma_round_trip(
    frame_type: FrameType,
    msg_kind: MessageKind,
    flags: FrameFlags,
    payload_len: u32,
    msg_id: u64,
)
    requires
        flags.wf(),
    ensures
        Header::spec_decode(
            Header::spec_new(frame_type, msg_kind, payload_len, msg_id, flags).spec_encode(),
        ) == Ok::<Header, DecodeError>(
            Header::spec_new(frame_type, msg_kind, payload_len, msg_id, flags),
        ),
{
    lemma_decode_encode(Header::spec_new(frame_type, msg_kind, payload_len, msg_id, flags));
}

/// A header that decodes is well formed, and encoding it gives the bytes
/// back but for the two reserved ones, which are written as zero.
pub proof fn lemma_encode_decode(buf: Seq<u8>)
    requires
        buf.len() == HEADER_SIZE,
        Header::spec_decode(buf) is Ok,
    ensures
        Header::spec_decode(buf).unwrap().wf(),
        Header::spec_decode(buf).unwrap().spec_encode() == buf.update(10, 0u8).update(11, 0u8),
{
    let h = Header::spec_decode(buf).unwrap();
    FrameFlags::lemma_bits(buf[5]);
    lemma_be_u16_of_value(buf.subrange(6, 8));
    lemma_be_u16_of_value(buf.subrange(8, 10));
    lemma_be_u32_of_value(buf.subrange(12, 16));
    lemma_be_u64_of_value(buf.subrange(16, 24));
    assert(buf.subrange(0, 4) == MSIP_MAGIC@);
    assert(forall|i: int| 0 <= i < 4 ==> buf.subrange(0, 4)[i] == buf[i]);
    assert(forall|i: int| 0 <= i < 2 ==> buf.subrange(6, 8)[i] == buf[6 + i]);
    assert(forall|i: int| 0 <= i < 2 ==> buf.subrange(8, 10)[i] == buf[8 + i]);
    assert(forall|i: int| 0 <= i < 4 ==> buf.subrange(12, 16)[i] == buf[12 + i]);
    assert(forall|i: int| 0 <= i < 8 ==> buf.subrange(16, 24)[i] == buf[16 + i]);
    assert(h.spec_encode() =~= buf.update(10, 0u8).update(11, 0u8));
}

} // verus!
