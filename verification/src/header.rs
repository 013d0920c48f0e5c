//! The eight-byte prefix of every message.

use vstd::prelude::*;
use crate::error::DecodeError;
use crate::wire::{array_of, le16, le16_bytes, lemma_array_of, lemma_array_of_view, lemma_le16_exact, lemma_le16_roundtrip, read_array, read_le16, write_bytes, write_le16};

verus! {

/// Bytes taken by a header on the wire.
pub const HEADER_SIZE: usize = 8;

/// Command code of a port request, under signature `1TEG`.
pub const CMD_1TEG_PORT_REQUEST: u16 = 0x0b;

/// Command code of a port response, under signature `1TEG`.
pub const CMD_1TEG_PORT_RESPONSE: u16 = 0x0c;

/// Command code of a login request, under signature `1TEG`.
pub const CMD_1TEG_LOGIN_REQUEST: u16 = 0x0d;

/// Command code of a control command (the heartbeat), under signature `2TEG`.
pub const CMD_2TEG_PPP_CONTROL_CMD: u16 = 0x01;

/// Command code of a media frame, under signature `2TEG`.
pub const CMD_2TEG_MEDIA_FRAME: u16 = 0x03;

/// Command code of the audio kick, under signature `2TEG`.
pub const CMD_2TEG_AUDIO_KICK: u16 = 0x04;

/// The signature bytes of protocol version `version`: an ASCII digit and `TEG`.
pub open spec fn signature_bytes(version: int) -> Seq<u8> {
    seq![(0x30 + version) as u8, 0x54u8, 0x45u8, 0x47u8]
}

/// Whether `s` is one of the two signatures, `1TEG` or `2TEG`.
pub open spec fn is_signature(s: Seq<u8>) -> bool {
    s == signature_bytes(1) || s == signature_bytes(2)
}

/// Signature, command code and declared payload length.
#[derive(Debug, Clone, Copy, PartialEq, Eq)]
pub struct TTEGHeader {
    pub signature: [u8; 4],
    pub cmd: u16,
    pub data_len: u16,
}

impl TTEGHeader {
    /// The signature is `1TEG` or `2TEG`.
    pub open spec fn wf(&self) -> bool {
        is_signature(self.signature@)
    }

    /// The protocol version that the signature stands for: 1 or 2 on a
    /// well-formed header.
    pub open spec fn spec_version(&self) -> int {
        self.signature@[0] - 0x30
    }

    /// The eight bytes of the header: signature, then command and length in
    /// little-endian order.
    pub open spec fn encoding(&self) -> Seq<u8> {
        self.signature@ + le16_bytes(self.cmd) + le16_bytes(self.data_len)
    }

    /// What the first eight bytes of `s` decode to. Bytes after them are
    /// not looked at.
    pub open spec fn spec_decode(s: Seq<u8>) -> Result<TTEGHeader, DecodeError> {
        if s.len() < 8 {
            Err(DecodeError::ShortBuffer)
        } else if !is_signature(s.subrange(0, 4)) {
            Err(DecodeError::BadSignature)
        } else {
            Ok(
                TTEGHeader {
                    signature: array_of::<4>(s.subrange(0, 4)),
                    cmd: le16(s.subrange(4, 6)) as u16,
                    data_len: le16(s.subrange(6, 8)) as u16,
                },
            )
        }
    }

    /// A header of protocol version 1 or 2.
    pub fn new(version: u8, cmd: u16, data_len: u16) -> (h: Self)
        requires
            version == 1 || version == 2,
        ensures
            h.signature@ == signature_bytes(version as int),
            h.cmd == cmd,
            h.data_len == data_len,
            h.wf(),
            h.spec_version() == version,
    {
        let digit: u8 = if version == 1 { 0x31 } else { 0x32 };
        let h = TTEGHeader { signature: [digit, 0x54, 0x45, 0x47], cmd, data_len };
        assert(h.signature@ =~= signature_bytes(version as int));
        h
    }

    /// The protocol version of a well-formed header.
    pub fn version(&self) -> (v: u8)
        requires
            self.wf(),
        ensures
            v == self.spec_version(),
            v == 1 || v == 2,
    {
        if self.signature[0] == 0x31 {
            1
        } else {
            2
        }
    }

    /// The header as it goes on the wire.
    pub fn encode(&self) -> (out: Vec<u8>)
        ensures
            out@ == self.encoding(),
            out@.len() == HEADER_SIZE,
    {
        let mut out: Vec<u8> = Vec::new();
        self.encode_into(&mut out);
        out
    }

    /// Appends the header as it goes on the wire.
    pub fn encode_into(&self, out: &mut Vec<u8>)
        ensures
            final(out)@ == old(out)@ + self.encoding(),
            self.encoding().len() == HEADER_SIZE,
    {
        write_bytes(out, &self.signature);
        write_le16(out, self.cmd);
        write_le16(out, self.data_len);
        assert(out@ =~= old(out)@ + self.encoding());
    }

    /// Reads a header from the front of `buf`.
    pub fn decode(buf: &[u8]) -> (r: Result<Self, DecodeError>)
        ensures
            r == Self::spec_decode(buf@),
    {
        if buf.len() < HEADER_SIZE {
            return Err(DecodeError::ShortBuffer);
        }
        let signature: [u8; 4] = read_array::<4>(buf, 0);
        let first_ok = signature[0] == 0x31 || signature[0] == 0x32;
        if !first_ok || signature[1] != 0x54 || signature[2] != 0x45 || signature[3] != 0x47 {
            return Err(DecodeError::BadSignature);
        }
        let cmd = read_le16(buf, 4);
        let data_len = read_le16(buf, 6);
        proof {
            lemma_array_of_view(signature);
            let s = buf@.subrange(0, 4);
            assert(s =~= signature_bytes(1) || s =~= signature_bytes(2));
        }
        Ok(TTEGHeader { signature, cmd, data_len })
    }
}

/// Decoding the encoding of a well-formed header gives the header back,
/// whatever bytes follow it.
pub proof fn lemma_header_roundtrip(h: TTEGHeader, tail: Seq<u8>)
    requires
        h.wf(),
    ensures
        h.encoding().len() == HEADER_SIZE,
        TTEGHeader::spec_decode(h.encoding() + tail) == Ok::<TTEGHeader, DecodeError>(h),
{
    let s = h.encoding() + tail;
    lemma_le16_roundtrip(h.cmd);
    lemma_le16_roundtrip(h.data_len);
    lemma_array_of_view(h.signature);
    assert(s.subrange(0, 4) =~= h.signature@);
    assert(s.subrange(4, 6) =~= le16_bytes(h.cmd));
    assert(s.subrange(6, 8) =~= le16_bytes(h.data_len));
}

/// What decodes as a header is well formed, and its encoding is the eight
/// bytes it was decoded from.
pub proof fn lemma_header_decode_exact(s: Seq<u8>)
    requires
        TTEGHeader::spec_decode(s) is Ok,
    ensures
        TTEGHeader::spec_decode(s) matches Ok(h) && h.wf() && h.encoding() == s.subrange(0, 8),
{
    let h = TTEGHeader::spec_decode(s)->Ok_0;
    lemma_array_of::<4>(s.subrange(0, 4));
    lemma_le16_exact(s.subrange(4, 6));
    lemma_le16_exact(s.subrange(6, 8));
    assert(h.encoding() =~= s.subrange(0, 8));
}

} // verus!
