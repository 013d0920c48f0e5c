//! The keep-alive messages: the heartbeat and the audio kick.

use vstd::prelude::*;
use crate::error::DecodeError;
use crate::header::{lemma_header_decode_exact, lemma_header_roundtrip, signature_bytes, TTEGHeader, CMD_2TEG_AUDIO_KICK, CMD_2TEG_PPP_CONTROL_CMD};
use crate::wire::{le32, le32_bytes, le64, le64_bytes, lemma_le32_exact, lemma_le32_roundtrip, lemma_le64_exact, lemma_le64_roundtrip, read_le32, read_le64, write_le32, write_le64};

verus! {

/// Bytes taken by a control command on the wire.
pub const CONTROL_COMMAND_SIZE: usize = 36;

/// The 28 bytes that both keep-alive messages carry after the header: the
/// numbers 1, 1, 8, 0, 1 as `u64`, `u32`, `u64`, `u32`, `u32`.
pub open spec fn keepalive_body() -> Seq<u8> {
    seq![
        0x01u8, 0x00u8, 0x00u8, 0x00u8, 0x00u8, 0x00u8, 0x00u8, 0x00u8,
        0x01u8, 0x00u8, 0x00u8, 0x00u8,
        0x08u8, 0x00u8, 0x00u8, 0x00u8, 0x00u8, 0x00u8, 0x00u8, 0x00u8,
        0x00u8, 0x00u8, 0x00u8, 0x00u8,
        0x01u8, 0x00u8, 0x00u8, 0x00u8,
    ]
}

/// The heartbeat on the wire: `2TEG`, command 0x01, payload length 28, the
/// keep-alive body.
pub open spec fn heartbeat_bytes() -> Seq<u8> {
    seq![0x32u8, 0x54u8, 0x45u8, 0x47u8, 0x01u8, 0x00u8, 0x1cu8, 0x00u8] + keepalive_body()
}

/// The audio kick on the wire: `2TEG`, command 0x04, payload length 28,
/// the keep-alive body.
pub open spec fn audio_kick_bytes() -> Seq<u8> {
    seq![0x32u8, 0x54u8, 0x45u8, 0x47u8, 0x04u8, 0x00u8, 0x1cu8, 0x00u8] + keepalive_body()
}

/// A `2TEG` control message with its 28-byte body of five integers.
///
/// What the integers mean is not known; the camera stops streaming when
/// any of them differs from the values that `new` and `audio_kick` give.
#[derive(Debug, Clone, Copy, PartialEq, Eq)]
pub struct ControlCommand {
    pub header: TTEGHeader,
    pub unknown_a: u64,
    pub unknown_b: u32,
    pub unknown_c: u64,
    pub unknown_d: u32,
    pub unknown_e: u32,
}

impl ControlCommand {
    /// Header, then the five integers in little-endian order.
    pub open spec fn encoding(&self) -> Seq<u8> {
        self.header.encoding() + le64_bytes(self.unknown_a) + le32_bytes(self.unknown_b)
            + le64_bytes(self.unknown_c) + le32_bytes(self.unknown_d) + le32_bytes(
            self.unknown_e,
        )
    }

    /// What the first 36 bytes of `s` decode to.
    pub open spec fn spec_decode(s: Seq<u8>) -> Result<ControlCommand, DecodeError> {
        if s.len() < 36 {
            Err(DecodeError::ShortBuffer)
        } else {
            match TTEGHeader::spec_decode(s) {
                Err(e) => Err(e),
                Ok(header) => Ok(
                    ControlCommand {
                        header,
                        unknown_a: le64(s.subrange(8, 16)) as u64,
                        unknown_b: le32(s.subrange(16, 20)) as u32,
                        unknown_c: le64(s.subrange(20, 28)) as u64,
                        unknown_d: le32(s.subrange(28, 32)) as u32,
                        unknown_e: le32(s.subrange(32, 36)) as u32,
                    },
                ),
            }
        }
    }

    /// Whether the body holds the five numbers 1, 1, 8, 0, 1 that both
    /// keep-alive messages carry.
    pub open spec fn has_keepalive_body(&self) -> bool {
        &&& self.unknown_a == 1
        &&& self.unknown_b == 1
        &&& self.unknown_c == 8
        &&& self.unknown_d == 0
        &&& self.unknown_e == 1
    }

    /// The heartbeat: `2TEG`, command 0x01, 28 payload bytes.
    pub fn new() -> (c: Self)
        ensures
            c.header.signature@ == signature_bytes(2),
            c.header.cmd == CMD_2TEG_PPP_CONTROL_CMD,
            c.header.data_len == 0x1c,
            c.has_keepalive_body(),
            c.header.wf(),
            c.encoding() == heartbeat_bytes(),
    {
        let c = ControlCommand {
            header: TTEGHeader::new(2, CMD_2TEG_PPP_CONTROL_CMD, 0x1c),
            unknown_a: 0x1,
            unknown_b: 0x1,
            unknown_c: 0x8,
            unknown_d: 0x0,
            unknown_e: 0x1,
        };
        proof {
            lemma_keepalive_body(c);
            assert(c.encoding() =~= heartbeat_bytes());
        }
        c
    }

    /// The audio kick: `2TEG`, command 0x04, the body of the heartbeat.
    pub fn audio_kick() -> (c: Self)
        ensures
            c.header.signature@ == signature_bytes(2),
            c.header.cmd == CMD_2TEG_AUDIO_KICK,
            c.header.data_len == 0x1c,
            c.has_keepalive_body(),
            c.header.wf(),
            c.encoding() == audio_kick_bytes(),
    {
        let c = ControlCommand {
            header: TTEGHeader::new(2, CMD_2TEG_AUDIO_KICK, 0x1c),
            unknown_a: 0x1,
            unknown_b: 0x1,
            unknown_c: 0x8,
            unknown_d: 0x0,
            unknown_e: 0x1,
        };
        proof {
            lemma_keepalive_body(c);
            assert(c.encoding() =~= audio_kick_bytes());
        }
        c
    }

    /// The command as it goes on the wire.
    pub fn encode(&self) -> (out: Vec<u8>)
        ensures
            out@ == self.encoding(),
            out@.len() == CONTROL_COMMAND_SIZE,
    {
        let mut out: Vec<u8> = Vec::new();
        self.header.encode_into(&mut out);
        write_le64(&mut out, self.unknown_a);
        write_le32(&mut out, self.unknown_b);
        write_le64(&mut out, self.unknown_c);
        write_le32(&mut out, self.unknown_d);
        write_le32(&mut out, self.unknown_e);
        assert(out@ =~= self.encoding());
        out
    }

    /// Reads a control command from the front of `buf`.
    pub fn decode(buf: &[u8]) -> (r: Result<Self, DecodeError>)
        ensures
            r == Self::spec_decode(buf@),
    {
        if buf.len() < CONTROL_COMMAND_SIZE {
            return Err(DecodeError::ShortBuffer);
        }
        match TTEGHeader::decode(buf) {
            Err(e) => Err(e),
            Ok(header) => {
                let unknown_a = read_le64(buf, 8);
                let unknown_b = read_le32(buf, 16);
                let unknown_c = read_le64(buf, 20);
                let unknown_d = read_le32(buf, 28);
                let unknown_e = read_le32(buf, 32);
                Ok(ControlCommand { header, unknown_a, unknown_b, unknown_c, unknown_d, unknown_e })
            },
        }
    }
}

/// A command whose body holds the five keep-alive numbers carries the
/// keep-alive body after its header.
pub proof fn lemma_keepalive_body(c: ControlCommand)
    requires
        c.has_keepalive_body(),
    ensures
        c.encoding() == c.header.encoding() + keepalive_body(),
{
    assert(le64_bytes(1) =~= seq![1u8, 0u8, 0u8, 0u8, 0u8, 0u8, 0u8, 0u8]);
    assert(le64_bytes(8) =~= seq![8u8, 0u8, 0u8, 0u8, 0u8, 0u8, 0u8, 0u8]);
    assert(le32_bytes(1) =~= seq![1u8, 0u8, 0u8, 0u8]);
    assert(le32_bytes(0) =~= seq![0u8, 0u8, 0u8, 0u8]);
    assert(c.encoding() =~= c.header.encoding() + keepalive_body());
}

/// Decoding the encoding of a control command with a well-formed header
/// gives the command back, whatever bytes follow it.
pub proof fn lemma_control_command_roundtrip(c: ControlCommand, tail: Seq<u8>)
    requires
        c.header.wf(),
    ensures
        c.encoding().len() == CONTROL_COMMAND_SIZE,
        ControlCommand::spec_decode(c.encoding() + tail) == Ok::<ControlCommand, DecodeError>(c),
{
    let s = c.encoding() + tail;
    let rest = le64_bytes(c.unknown_a) + le32_bytes(c.unknown_b) + le64_bytes(c.unknown_c)
        + le32_bytes(c.unknown_d) + le32_bytes(c.unknown_e) + tail;
    lemma_le64_roundtrip(c.unknown_a);
    lemma_le32_roundtrip(c.unknown_b);
    lemma_le64_roundtrip(c.unknown_c);
    lemma_le32_roundtrip(c.unknown_d);
    lemma_le32_roundtrip(c.unknown_e);
    assert(s =~= c.header.encoding() + rest);
    lemma_header_roundtrip(c.header, rest);
    assert(s.subrange(8, 16) =~= le64_bytes(c.unknown_a));
    assert(s.subrange(16, 20) =~= le32_bytes(c.unknown_b));
    assert(s.subrange(20, 28) =~= le64_bytes(c.unknown_c));
    assert(s.subrange(28, 32) =~= le32_bytes(c.unknown_d));
    assert(s.subrange(32, 36) =~= le32_bytes(c.unknown_e));
}

/// The encoding of what decodes as a control command is the 36 bytes it
/// was decoded from.
pub proof fn lemma_control_command_decode_exact(s: Seq<u8>)
    requires
        ControlCommand::spec_decode(s) is Ok,
    ensures
        ControlCommand::spec_decode(s) matches Ok(c) && c.header.wf() && c.encoding()
            == s.subrange(0, 36),
{
    let c = ControlCommand::spec_decode(s)->Ok_0;
    lemma_header_decode_exact(s);
    lemma_le64_exact(s.subrange(8, 16));
    lemma_le32_exact(s.subrange(16, 20));
    lemma_le64_exact(s.subrange(20, 28));
    lemma_le32_exact(s.subrange(28, 32));
    lemma_le32_exact(s.subrange(32, 36));
    assert(c.encoding() =~= s.subrange(0, 36));
}

} // verus!
