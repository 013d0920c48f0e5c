//! Telling the incoming messages apart.

use vstd::prelude::*;
use crate::error::DecodeError;
use crate::handshake::{lemma_port_response_roundtrip, PortResponse};
use crate::header::{lemma_header_roundtrip, signature_bytes, TTEGHeader, CMD_1TEG_PORT_RESPONSE, CMD_2TEG_MEDIA_FRAME};
use crate::media::{lemma_media_frame_roundtrip, MediaFrame};

verus! {

/// A message that the client handles when the camera sends it.
#[derive(Debug, Clone, Copy, PartialEq, Eq)]
pub enum Frame {
    /// `1TEG`, command 0x0c.
    PortResponse(PortResponse),
    /// `2TEG`, command 0x03.
    MediaFrame(MediaFrame),
}

/// What a datagram decodes to.
///
/// The header decides: version 1 with command 0x0c is a port response,
/// version 2 with command 0x03 a media frame, and each is then decoded in
/// full. Every other pair of version and command is `UnknownCommand`.
pub open spec fn spec_parse_frame(s: Seq<u8>) -> Result<Frame, DecodeError> {
    match TTEGHeader::spec_decode(s) {
        Err(e) => Err(e),
        Ok(header) => if header.spec_version() == 1 && header.cmd == CMD_1TEG_PORT_RESPONSE {
            match PortResponse::spec_decode(s) {
                Err(e) => Err(e),
                Ok(r) => Ok(Frame::PortResponse(r)),
            }
        } else if header.spec_version() == 2 && header.cmd == CMD_2TEG_MEDIA_FRAME {
            match MediaFrame::spec_decode(s) {
                Err(e) => Err(e),
                Ok(f) => Ok(Frame::MediaFrame(f)),
            }
        } else {
            Err(DecodeError::UnknownCommand)
        },
    }
}

/// Decodes a datagram by the signature and command of its header.
pub fn parse_frame(buf: &[u8]) -> (r: Result<Frame, DecodeError>)
    ensures
        r == spec_parse_frame(buf@),
{
    match TTEGHeader::decode(buf) {
        Err(e) => Err(e),
        Ok(header) => {
            let version = header.version();
            if version == 1 && header.cmd == CMD_1TEG_PORT_RESPONSE {
                match PortResponse::decode(buf) {
                    Err(e) => Err(e),
                    Ok(r) => Ok(Frame::PortResponse(r)),
                }
            } else if version == 2 && header.cmd == CMD_2TEG_MEDIA_FRAME {
                match MediaFrame::decode(buf) {
                    Err(e) => Err(e),
                    Ok(f) => Ok(Frame::MediaFrame(f)),
                }
            } else {
                Err(DecodeError::UnknownCommand)
            }
        },
    }
}

/// A port response under `1TEG` and command 0x0c is recognised as itself
/// from its encoding, whatever bytes follow it.
#[verifier::rlimit(30)]
pub proof fn lemma_parse_frame_port_response(r: PortResponse, tail: Seq<u8>)
    requires
        r.header.signature@ == signature_bytes(1),
        r.header.cmd == CMD_1TEG_PORT_RESPONSE,
    ensures
        spec_parse_frame(r.encoding() + tail) == Ok::<Frame, DecodeError>(Frame::PortResponse(r)),
{
    lemma_port_response_roundtrip(r, tail);
    lemma_header_roundtrip(r.header, r.encoding().subrange(8, 76) + tail);
    assert(r.header.encoding() + (r.encoding().subrange(8, 76) + tail) =~= r.encoding() + tail);
}

/// A media frame under `2TEG` and command 0x03 is recognised as itself
/// from its encoding, whatever bytes follow it.
pub proof fn lemma_parse_frame_media_frame(f: MediaFrame, tail: Seq<u8>)
    requires
        f.header.signature@ == signature_bytes(2),
        f.header.cmd == CMD_2TEG_MEDIA_FRAME,
    ensures
        spec_parse_frame(f.encoding() + tail) == Ok::<Frame, DecodeError>(Frame::MediaFrame(f)),
{
    lemma_media_frame_roundtrip(f, tail);
    lemma_header_roundtrip(f.header, f.encoding().subrange(8, 24) + tail);
    assert(f.header.encoding() + (f.encoding().subrange(8, 24) + tail) =~= f.encoding() + tail);
}

} // verus!
