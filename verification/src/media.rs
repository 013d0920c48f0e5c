//! The media frame: one fragment of a video frame, or one audio frame.

use vstd::prelude::*;
use crate::error::DecodeError;
use crate::header::{lemma_header_decode_exact, lemma_header_roundtrip, TTEGHeader};
use crate::wire::{copy_range, le16, le16_bytes, le32, le32_bytes, lemma_le16_exact, lemma_le16_roundtrip, lemma_le32_exact, lemma_le32_roundtrip, read_le16, read_le32, write_le16, write_le32};

verus! {

/// Bytes taken by the fixed portion of a media frame on the wire: the
/// message header and the sixteen bytes of media fields.
pub const MEDIA_FRAME_SIZE: usize = 24;

/// The fixed portion of a media frame. The media bytes follow it in the
/// datagram; `payload_range` says where.
#[derive(Debug, Clone, Copy, PartialEq, Eq)]
pub struct MediaFrame {
    pub header: TTEGHeader,
    pub unknown_0: u32,
    pub unknown_1: u16,
    pub is_audio: u16,
    pub frame_index: u16,
    pub pkt_index: u16,
    pub media_data_len: u32,
}

impl MediaFrame {
    /// Header, then the six media fields in little-endian order.
    pub open spec fn encoding(&self) -> Seq<u8> {
        self.header.encoding() + le32_bytes(self.unknown_0) + le16_bytes(self.unknown_1)
            + le16_bytes(self.is_audio) + le16_bytes(self.frame_index) + le16_bytes(
            self.pkt_index,
        ) + le32_bytes(self.media_data_len)
    }

    /// What the first 24 bytes of `s` decode to. Bytes after them are not
    /// looked at.
    pub open spec fn spec_decode(s: Seq<u8>) -> Result<MediaFrame, DecodeError> {
        if s.len() < 24 {
            Err(DecodeError::ShortBuffer)
        } else {
            match TTEGHeader::spec_decode(s) {
                Err(e) => Err(e),
                Ok(header) => Ok(
                    MediaFrame {
                        header,
                        unknown_0: le32(s.subrange(8, 12)) as u32,
                        unknown_1: le16(s.subrange(12, 14)) as u16,
                        is_audio: le16(s.subrange(14, 16)) as u16,
                        frame_index: le16(s.subrange(16, 18)) as u16,
                        pkt_index: le16(s.subrange(18, 20)) as u16,
                        media_data_len: le32(s.subrange(20, 24)) as u32,
                    },
                ),
            }
        }
    }

    /// Where the media bytes start in the datagram:
    /// `(data_len - 16 - media_data_len) + 24`.
    ///
    /// Whatever the camera puts between the media fields and the media
    /// bytes moves the start by its length, so the media bytes are the last
    /// `media_data_len` bytes of the declared message.
    pub open spec fn payload_start(&self) -> int {
        (self.header.data_len - 16 - self.media_data_len) + MEDIA_FRAME_SIZE
    }

    /// Where the media bytes end in the datagram.
    pub open spec fn payload_end(&self) -> int {
        self.payload_start() + self.media_data_len
    }

    /// Whether a datagram of `datagram_len` bytes holds the media bytes
    /// that the frame declares: the declared payload is no shorter than the
    /// media fields with the media bytes, and the media bytes end inside
    /// the datagram.
    pub open spec fn payload_fits(&self, datagram_len: nat) -> bool {
        &&& 16 + self.media_data_len <= self.header.data_len
        &&& self.payload_end() <= datagram_len
    }

    /// The media bytes that `datagram` holds for this frame.
    pub open spec fn spec_payload(&self, datagram: Seq<u8>) -> Result<Seq<u8>, DecodeError> {
        if self.payload_fits(datagram.len()) {
            Ok(datagram.subrange(self.payload_start(), self.payload_end()))
        } else {
            Err(DecodeError::LengthMismatch)
        }
    }

    /// The fixed portion as it goes on the wire.
    pub fn encode(&self) -> (out: Vec<u8>)
        ensures
            out@ == self.encoding(),
            out@.len() == MEDIA_FRAME_SIZE,
    {
        let mut out: Vec<u8> = Vec::new();
        self.header.encode_into(&mut out);
        write_le32(&mut out, self.unknown_0);
        write_le16(&mut out, self.unknown_1);
        write_le16(&mut out, self.is_audio);
        write_le16(&mut out, self.frame_index);
        write_le16(&mut out, self.pkt_index);
        write_le32(&mut out, self.media_data_len);
        assert(out@ =~= self.encoding());
        out
    }

    /// Reads the fixed portion of a media frame from the front of `buf`.
    pub fn decode(buf: &[u8]) -> (r: Result<Self, DecodeError>)
        ensures
            r == Self::spec_decode(buf@),
    {
        if buf.len() < MEDIA_FRAME_SIZE {
            return Err(DecodeError::ShortBuffer);
        }
        match TTEGHeader::decode(buf) {
            Err(e) => Err(e),
            Ok(header) => {
                let unknown_0 = read_le32(buf, 8);
                let unknown_1 = read_le16(buf, 12);
                let is_audio = read_le16(buf, 14);
                let frame_index = read_le16(buf, 16);
                let pkt_index = read_le16(buf, 18);
                let media_data_len = read_le32(buf, 20);
                Ok(
                    MediaFrame {
                        header,
                        unknown_0,
                        unknown_1,
                        is_audio,
                        frame_index,
                        pkt_index,
                        media_data_len,
                    },
                )
            },
        }
    }

    /// Start and end of the media bytes in a datagram of `datagram_len`
    /// bytes, or `LengthMismatch` where the declared lengths do not fit it.
    pub fn payload_range(&self, datagram_len: usize) -> (r: Result<(usize, usize), DecodeError>)
        ensures
            self.payload_fits(datagram_len as nat) ==> r == Ok::<(usize, usize), DecodeError>(
                (self.payload_start() as usize, self.payload_end() as usize),
            ),
            !self.payload_fits(datagram_len as nat) ==> r == Err::<(usize, usize), DecodeError>(
                DecodeError::LengthMismatch,
            ),
            r matches Ok((start, end)) ==> start <= end <= datagram_len && end - start
                == self.media_data_len,
    {
        let data_len: u64 = self.header.data_len as u64;
        let media_len: u64 = self.media_data_len as u64;
        if data_len < 16 + media_len {
            return Err(DecodeError::LengthMismatch);
        }
        let start: u64 = (data_len - 16 - media_len) + 24;
        let end: u64 = start + media_len;
        if end > datagram_len as u64 {
            return Err(DecodeError::LengthMismatch);
        }
        Ok((start as usize, end as usize))
    }

    /// The media bytes of this frame, copied out of the datagram it was
    /// decoded from, or `LengthMismatch` where the declared lengths do not
    /// fit the datagram.
    pub fn payload(&self, datagram: &[u8]) -> (r: Result<Vec<u8>, DecodeError>)
        ensures
            match self.spec_payload(datagram@) {
                Ok(p) => r matches Ok(v) && v@ == p && v@.len() == self.media_data_len,
                Err(e) => r == Err::<Vec<u8>, DecodeError>(e),
            },
    {
        match self.payload_range(datagram.len()) {
            Err(e) => Err(e),
            Ok((start, end)) => Ok(copy_range(datagram, start, end)),
        }
    }
}

/// Decoding the encoding of a media frame with a well-formed header gives
/// the frame back, whatever bytes follow it.
#[verifier::rlimit(30)]
pub proof fn lemma_media_frame_roundtrip(f: MediaFrame, tail: Seq<u8>)
    requires
        f.header.wf(),
    ensures
        f.encoding().len() == MEDIA_FRAME_SIZE,
        MediaFrame::spec_decode(f.encoding() + tail) == Ok::<MediaFrame, DecodeError>(f),
{
    let s = f.encoding() + tail;
    let rest = le32_bytes(f.unknown_0) + le16_bytes(f.unknown_1) + le16_bytes(f.is_audio)
        + le16_bytes(f.frame_index) + le16_bytes(f.pkt_index) + le32_bytes(f.media_data_len)
        + tail;
    lemma_le32_roundtrip(f.unknown_0);
    lemma_le16_roundtrip(f.unknown_1);
    lemma_le16_roundtrip(f.is_audio);
    lemma_le16_roundtrip(f.frame_index);
    lemma_le16_roundtrip(f.pkt_index);
    lemma_le32_roundtrip(f.media_data_len);
    assert(s =~= f.header.encoding() + rest);
    lemma_header_roundtrip(f.header, rest);
    assert(s.subrange(8, 12) =~= le32_bytes(f.unknown_0));
    assert(s.subrange(12, 14) =~= le16_bytes(f.unknown_1));
    assert(s.subrange(14, 16) =~= le16_bytes(f.is_audio));
    assert(s.subrange(16, 18) =~= le16_bytes(f.frame_index));
    assert(s.subrange(18, 20) =~= le16_bytes(f.pkt_index));
    assert(s.subrange(20, 24) =~= le32_bytes(f.media_data_len));
}

/// On every datagram that holds what the frame declares, the offset rule
/// gives exactly `media_data_len` bytes, and they end where the declared
/// message ends: at byte `data_len + 8`.
pub proof fn lemma_payload_length(f: MediaFrame, datagram: Seq<u8>)
    requires
        f.payload_fits(datagram.len()),
    ensures
        f.spec_payload(datagram) matches Ok(p) && p.len() == f.media_data_len,
        f.payload_end() == f.header.data_len + 8,
        MEDIA_FRAME_SIZE <= f.payload_start(),
{
}

/// The encoding of what decodes as a media frame is the 24 bytes it was
/// decoded from.
pub proof fn lemma_media_frame_decode_exact(s: Seq<u8>)
    requires
        MediaFrame::spec_decode(s) is Ok,
    ensures
        MediaFrame::spec_decode(s) matches Ok(f) && f.header.wf() && f.encoding() == s.subrange(
            0,
            24,
        ),
{
    let f = MediaFrame::spec_decode(s)->Ok_0;
    lemma_header_decode_exact(s);
    lemma_le32_exact(s.subrange(8, 12));
    lemma_le16_exact(s.subrange(12, 14));
    lemma_le16_exact(s.subrange(14, 16));
    lemma_le16_exact(s.subrange(16, 18));
    lemma_le16_exact(s.subrange(18, 20));
    lemma_le32_exact(s.subrange(20, 24));
    assert(f.encoding() =~= s.subrange(0, 24));
}

} // verus!
