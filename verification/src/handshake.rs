//! The three messages of the discovery and login handshake.

use vstd::prelude::*;
use crate::error::DecodeError;
use crate::header::{lemma_header_decode_exact, lemma_header_roundtrip, signature_bytes, TTEGHeader, CMD_1TEG_LOGIN_REQUEST, CMD_1TEG_PORT_REQUEST};
use crate::udp_info::{lemma_udp_info_parse, lemma_udp_info_parse_exact, TUDPInfo};
use crate::wire::{array_of, be16_bytes, le16, le16_bytes, le32, le32_bytes, le64, le64_bytes, lemma_array_of, lemma_array_of_view, lemma_le16_exact, lemma_le16_roundtrip, lemma_le32_exact, lemma_le32_roundtrip, lemma_le64_exact, lemma_le64_roundtrip, read_array, read_le16, read_le32, read_le64, write_bytes, write_le16, write_le32, write_le64};

verus! {

/// Bytes taken by a port request on the wire.
pub const PORT_REQUEST_SIZE: usize = 20;

/// Bytes taken by the fixed portion of a port response on the wire.
pub const PORT_RESPONSE_SIZE: usize = 76;

/// Bytes taken by a login request on the wire.
pub const LOGIN_REQUEST_SIZE: usize = 48;

/// The twelve ASCII bytes `9e8040834b3a` that every login carries.
pub open spec fn credential() -> Seq<u8> {
    seq![0x39u8, 0x65u8, 0x38u8, 0x30u8, 0x34u8, 0x30u8, 0x38u8, 0x33u8, 0x34u8, 0x62u8, 0x33u8, 0x61u8]
}

/// The port request on the wire: `1TEG`, command 0x0b, payload length 12,
/// the number 1, ten zeros.
pub open spec fn port_request_bytes() -> Seq<u8> {
    seq![
        0x31u8, 0x54u8, 0x45u8, 0x47u8, 0x0bu8, 0x00u8, 0x0cu8, 0x00u8,
        0x01u8, 0x00u8, 0x00u8, 0x00u8, 0x00u8, 0x00u8, 0x00u8, 0x00u8,
        0x00u8, 0x00u8, 0x00u8, 0x00u8,
    ]
}

/// The login request on the wire of a client bound to port `udp_port` of
/// the IPv4 address `ip_addr`: `1TEG`, command 0x0d, payload length 40;
/// eighteen zeros, the port with its high byte first, the address; the
/// byte 9, the credential, three zeros.
pub open spec fn login_request_bytes(udp_port: u16, ip_addr: Seq<u8>) -> Seq<u8> {
    seq![0x31u8, 0x54u8, 0x45u8, 0x47u8, 0x0du8, 0x00u8, 0x28u8, 0x00u8]
        + Seq::new(18, |i: int| 0u8) + be16_bytes(udp_port) + ip_addr + seq![9u8] + credential()
        + Seq::new(3, |i: int| 0u8)
}

/// The client's opening message: it asks the camera for its session port.
#[derive(Debug, Clone, Copy, PartialEq, Eq)]
pub struct PortRequest {
    pub header: TTEGHeader,
    pub unknown_1: u16,
    pub pad: [u8; 10],
}

impl PortRequest {
    /// Header, a little-endian `u16`, ten pad bytes.
    pub open spec fn encoding(&self) -> Seq<u8> {
        self.header.encoding() + le16_bytes(self.unknown_1) + self.pad@
    }

    /// What the first 20 bytes of `s` decode to.
    pub open spec fn spec_decode(s: Seq<u8>) -> Result<PortRequest, DecodeError> {
        if s.len() < 20 {
            Err(DecodeError::ShortBuffer)
        } else {
            match TTEGHeader::spec_decode(s) {
                Err(e) => Err(e),
                Ok(header) => Ok(
                    PortRequest {
                        header,
                        unknown_1: le16(s.subrange(8, 10)) as u16,
                        pad: array_of::<10>(s.subrange(10, 20)),
                    },
                ),
            }
        }
    }

    /// The one port request there is: `1TEG`, command 0x0b, twelve payload
    /// bytes that hold the number 1 and ten zeros.
    pub fn new() -> (r: Self)
        ensures
            r.header.signature@ == signature_bytes(1),
            r.header.cmd == CMD_1TEG_PORT_REQUEST,
            r.header.data_len == 12,
            r.unknown_1 == 1,
            r.pad@ == Seq::new(10, |i: int| 0u8),
            r.header.wf(),
            r.encoding() == port_request_bytes(),
    {
        let r = PortRequest {
            header: TTEGHeader::new(1, CMD_1TEG_PORT_REQUEST, 12),
            unknown_1: 0x01,
            pad: [0u8; 10],
        };
        assert(r.pad@ =~= Seq::new(10, |i: int| 0u8));
        assert(r.encoding() =~= port_request_bytes());
        r
    }

    /// The request as it goes on the wire.
    pub fn encode(&self) -> (out: Vec<u8>)
        ensures
            out@ == self.encoding(),
            out@.len() == PORT_REQUEST_SIZE,
    {
        let mut out: Vec<u8> = Vec::new();
        self.header.encode_into(&mut out);
        write_le16(&mut out, self.unknown_1);
        write_bytes(&mut out, &self.pad);
        assert(out@ =~= self.encoding());
        out
    }

    /// Reads a port request from the front of `buf`.
    pub fn decode(buf: &[u8]) -> (r: Result<Self, DecodeError>)
        ensures
            r == Self::spec_decode(buf@),
    {
        if buf.len() < PORT_REQUEST_SIZE {
            return Err(DecodeError::ShortBuffer);
        }
        match TTEGHeader::decode(buf) {
            Err(e) => Err(e),
            Ok(header) => {
                let unknown_1 = read_le16(buf, 8);
                let pad: [u8; 10] = read_array::<10>(buf, 10);
                proof {
                    lemma_array_of_view(pad);
                }
                Ok(PortRequest { header, unknown_1, pad })
            },
        }
    }
}

/// The camera's answer: where to send the login and the stream requests.
#[derive(Debug, Clone, Copy, PartialEq, Eq)]
pub struct PortResponse {
    pub header: TTEGHeader,
    pub unknown_1: u32,
    pub unknown_2: u32,
    pub udp_info: TUDPInfo,
    pub cam_name: [u8; 28],
    pub unknown_3: u64,
}

impl PortResponse {
    /// Header, two little-endian `u32`, the address block, the 28-byte
    /// camera name, a little-endian `u64`.
    pub open spec fn encoding(&self) -> Seq<u8> {
        self.header.encoding() + le32_bytes(self.unknown_1) + le32_bytes(self.unknown_2)
            + self.udp_info.encoding() + self.cam_name@ + le64_bytes(self.unknown_3)
    }

    /// What the first 76 bytes of `s` decode to. Bytes after them are not
    /// looked at.
    pub open spec fn spec_decode(s: Seq<u8>) -> Result<PortResponse, DecodeError> {
        if s.len() < 76 {
            Err(DecodeError::ShortBuffer)
        } else {
            match TTEGHeader::spec_decode(s) {
                Err(e) => Err(e),
                Ok(header) => Ok(
                    PortResponse {
                        header,
                        unknown_1: le32(s.subrange(8, 12)) as u32,
                        unknown_2: le32(s.subrange(12, 16)) as u32,
                        udp_info: TUDPInfo::spec_parse(s.subrange(16, 40)),
                        cam_name: array_of::<28>(s.subrange(40, 68)),
                        unknown_3: le64(s.subrange(68, 76)) as u64,
                    },
                ),
            }
        }
    }

    /// The response as it goes on the wire.
    pub fn encode(&self) -> (out: Vec<u8>)
        ensures
            out@ == self.encoding(),
            out@.len() == PORT_RESPONSE_SIZE,
    {
        let mut out: Vec<u8> = Vec::new();
        self.header.encode_into(&mut out);
        write_le32(&mut out, self.unknown_1);
        write_le32(&mut out, self.unknown_2);
        self.udp_info.encode_into(&mut out);
        write_bytes(&mut out, &self.cam_name);
        write_le64(&mut out, self.unknown_3);
        assert(out@ =~= self.encoding());
        out
    }

    /// Reads a port response from the front of `buf`.
    pub fn decode(buf: &[u8]) -> (r: Result<Self, DecodeError>)
        ensures
            r == Self::spec_decode(buf@),
    {
        if buf.len() < PORT_RESPONSE_SIZE {
            return Err(DecodeError::ShortBuffer);
        }
        match TTEGHeader::decode(buf) {
            Err(e) => Err(e),
            Ok(header) => {
                let unknown_1 = read_le32(buf, 8);
                let unknown_2 = read_le32(buf, 12);
                let udp_info = TUDPInfo::parse_at(buf, 16);
                let cam_name: [u8; 28] = read_array::<28>(buf, 40);
                let unknown_3 = read_le64(buf, 68);
                proof {
                    lemma_array_of_view(cam_name);
                }
                Ok(PortResponse { header, unknown_1, unknown_2, udp_info, cam_name, unknown_3 })
            },
        }
    }
}

/// The client's login: its own endpoint and the fixed credential.
#[derive(Debug, Clone, Copy, PartialEq, Eq)]
pub struct LoginRequest {
    pub header: TTEGHeader,
    pub udp_info: TUDPInfo,
    pub unknown_2: u8,
    pub password_hash: [u8; 12],
    pub align: [u8; 3],
}

impl LoginRequest {
    /// Header, the address block, one byte, the 12-byte credential, three
    /// pad bytes.
    pub open spec fn encoding(&self) -> Seq<u8> {
        self.header.encoding() + self.udp_info.encoding() + seq![self.unknown_2]
            + self.password_hash@ + self.align@
    }

    /// What the first 48 bytes of `s` decode to.
    pub open spec fn spec_decode(s: Seq<u8>) -> Result<LoginRequest, DecodeError> {
        if s.len() < 48 {
            Err(DecodeError::ShortBuffer)
        } else {
            match TTEGHeader::spec_decode(s) {
                Err(e) => Err(e),
                Ok(header) => Ok(
                    LoginRequest {
                        header,
                        udp_info: TUDPInfo::spec_parse(s.subrange(8, 32)),
                        unknown_2: s[32],
                        password_hash: array_of::<12>(s.subrange(33, 45)),
                        align: array_of::<3>(s.subrange(45, 48)),
                    },
                ),
            }
        }
    }

    /// The login of the client whose socket is bound to `ip_addr:udp_port`:
    /// `1TEG`, command 0x0d, forty payload bytes.
    pub fn new(udp_port: u16, ip_addr: [u8; 4]) -> (r: Self)
        ensures
            r.header.signature@ == signature_bytes(1),
            r.header.cmd == CMD_1TEG_LOGIN_REQUEST,
            r.header.data_len == 40,
            r.udp_info.unknown@ == Seq::new(18, |i: int| 0u8),
            r.udp_info.udp_port == udp_port,
            r.udp_info.ip_addr == ip_addr,
            r.unknown_2 == 9,
            r.password_hash@ == credential(),
            r.align@ == Seq::new(3, |i: int| 0u8),
            r.header.wf(),
            r.encoding() == login_request_bytes(udp_port, ip_addr@),
    {
        let r = LoginRequest {
            header: TTEGHeader::new(1, CMD_1TEG_LOGIN_REQUEST, 40),
            udp_info: TUDPInfo::new(udp_port, ip_addr),
            unknown_2: 9,
            password_hash: [0x39, 0x65, 0x38, 0x30, 0x34, 0x30, 0x38, 0x33, 0x34, 0x62, 0x33, 0x61],
            align: [0u8; 3],
        };
        assert(r.password_hash@ =~= credential());
        assert(r.align@ =~= Seq::new(3, |i: int| 0u8));
        assert(r.header.encoding() =~= seq![
            0x31u8, 0x54u8, 0x45u8, 0x47u8, 0x0du8, 0x00u8, 0x28u8, 0x00u8,
        ]);
        assert(r.encoding() =~= login_request_bytes(udp_port, ip_addr@));
        r
    }

    /// The login as it goes on the wire.
    pub fn encode(&self) -> (out: Vec<u8>)
        ensures
            out@ == self.encoding(),
            out@.len() == LOGIN_REQUEST_SIZE,
    {
        let mut out: Vec<u8> = Vec::new();
        self.header.encode_into(&mut out);
        self.udp_info.encode_into(&mut out);
        out.push(self.unknown_2);
        write_bytes(&mut out, &self.password_hash);
        write_bytes(&mut out, &self.align);
        assert(out@ =~= self.encoding());
        out
    }

    /// Reads a login request from the front of `buf`.
    pub fn decode(buf: &[u8]) -> (r: Result<Self, DecodeError>)
        ensures
            r == Self::spec_decode(buf@),
    {
        if buf.len() < LOGIN_REQUEST_SIZE {
            return Err(DecodeError::ShortBuffer);
        }
        match TTEGHeader::decode(buf) {
            Err(e) => Err(e),
            Ok(header) => {
                let udp_info = TUDPInfo::parse_at(buf, 8);
                let unknown_2 = buf[32];
                let password_hash: [u8; 12] = read_array::<12>(buf, 33);
                let align: [u8; 3] = read_array::<3>(buf, 45);
                proof {
                    lemma_array_of_view(password_hash);
                    lemma_array_of_view(align);
                }
                Ok(LoginRequest { header, udp_info, unknown_2, password_hash, align })
            },
        }
    }
}

/// Decoding the encoding of a port request with a well-formed header gives
/// the request back, whatever bytes follow it.
pub proof fn lemma_port_request_roundtrip(r: PortRequest, tail: Seq<u8>)
    requires
        r.header.wf(),
    ensures
        r.encoding().len() == PORT_REQUEST_SIZE,
        PortRequest::spec_decode(r.encoding() + tail) == Ok::<PortRequest, DecodeError>(r),
{
    let s = r.encoding() + tail;
    let rest = le16_bytes(r.unknown_1) + r.pad@ + tail;
    assert(s =~= r.header.encoding() + rest);
    lemma_header_roundtrip(r.header, rest);
    lemma_le16_roundtrip(r.unknown_1);
    lemma_array_of_view(r.pad);
    assert(s.subrange(8, 10) =~= le16_bytes(r.unknown_1));
    assert(s.subrange(10, 20) =~= r.pad@);
}

/// Decoding the encoding of a port response with a well-formed header gives
/// the response back, whatever bytes follow it.
#[verifier::rlimit(30)]
pub proof fn lemma_port_response_roundtrip(r: PortResponse, tail: Seq<u8>)
    requires
        r.header.wf(),
    ensures
        r.encoding().len() == PORT_RESPONSE_SIZE,
        PortResponse::spec_decode(r.encoding() + tail) == Ok::<PortResponse, DecodeError>(r),
{
    let s = r.encoding() + tail;
    let rest = le32_bytes(r.unknown_1) + le32_bytes(r.unknown_2) + r.udp_info.encoding()
        + r.cam_name@ + le64_bytes(r.unknown_3) + tail;
    lemma_le32_roundtrip(r.unknown_1);
    lemma_le32_roundtrip(r.unknown_2);
    lemma_le64_roundtrip(r.unknown_3);
    lemma_udp_info_parse(r.udp_info, Seq::empty());
    lemma_array_of_view(r.cam_name);
    assert(s =~= r.header.encoding() + rest);
    lemma_header_roundtrip(r.header, rest);
    assert(s.subrange(8, 12) =~= le32_bytes(r.unknown_1));
    assert(s.subrange(12, 16) =~= le32_bytes(r.unknown_2));
    assert(s.subrange(16, 40) =~= r.udp_info.encoding() + Seq::<u8>::empty());
    assert(s.subrange(40, 68) =~= r.cam_name@);
    assert(s.subrange(68, 76) =~= le64_bytes(r.unknown_3));
}

/// Decoding the encoding of a login request with a well-formed header gives
/// the request back, whatever bytes follow it.
pub proof fn lemma_login_request_roundtrip(r: LoginRequest, tail: Seq<u8>)
    requires
        r.header.wf(),
    ensures
        r.encoding().len() == LOGIN_REQUEST_SIZE,
        LoginRequest::spec_decode(r.encoding() + tail) == Ok::<LoginRequest, DecodeError>(r),
{
    let s = r.encoding() + tail;
    let rest = r.udp_info.encoding() + seq![r.unknown_2] + r.password_hash@ + r.align@ + tail;
    lemma_udp_info_parse(r.udp_info, Seq::empty());
    lemma_array_of_view(r.password_hash);
    lemma_array_of_view(r.align);
    assert(s =~= r.header.encoding() + rest);
    lemma_header_roundtrip(r.header, rest);
    assert(s.subrange(8, 32) =~= r.udp_info.encoding() + Seq::<u8>::empty());
    assert(s.subrange(33, 45) =~= r.password_hash@);
    assert(s.subrange(45, 48) =~= r.align@);
}

/// Inside the otherwise little-endian port response the port keeps its
/// big-endian order: it stands at bytes 34 and 35, high byte first, and
/// decodes to itself.
pub proof fn lemma_port_response_port_big_endian(r: PortResponse)
    requires
        r.header.wf(),
    ensures
        r.encoding().subrange(34, 36) == be16_bytes(r.udp_info.udp_port),
        PortResponse::spec_decode(r.encoding()) matches Ok(d) && d.udp_info.udp_port
            == r.udp_info.udp_port,
{
    lemma_port_response_roundtrip(r, Seq::empty());
    assert(r.encoding() + Seq::<u8>::empty() =~= r.encoding());
    lemma_le32_roundtrip(r.unknown_1);
    lemma_le32_roundtrip(r.unknown_2);
    assert(r.header.encoding().len() == 8) by {
        lemma_header_roundtrip(r.header, Seq::empty());
    }
    assert(r.encoding().subrange(34, 36) =~= be16_bytes(r.udp_info.udp_port));
}

/// Inside the otherwise little-endian login request the port keeps its
/// big-endian order: it stands at bytes 26 and 27, high byte first, and
/// decodes to itself.
pub proof fn lemma_login_request_port_big_endian(r: LoginRequest)
    requires
        r.header.wf(),
    ensures
        r.encoding().subrange(26, 28) == be16_bytes(r.udp_info.udp_port),
        LoginRequest::spec_decode(r.encoding()) matches Ok(d) && d.udp_info.udp_port
            == r.udp_info.udp_port,
{
    lemma_login_request_roundtrip(r, Seq::empty());
    assert(r.encoding() + Seq::<u8>::empty() =~= r.encoding());
    assert(r.header.encoding().len() == 8) by {
        lemma_header_roundtrip(r.header, Seq::empty());
    }
    assert(r.encoding().subrange(26, 28) =~= be16_bytes(r.udp_info.udp_port));
}

/// The encoding of what decodes as a port request is the 20 bytes it was
/// decoded from.
pub proof fn lemma_port_request_decode_exact(s: Seq<u8>)
    requires
        PortRequest::spec_decode(s) is Ok,
    ensures
        PortRequest::spec_decode(s) matches Ok(r) && r.header.wf() && r.encoding() == s.subrange(
            0,
            20,
        ),
{
    let r = PortRequest::spec_decode(s)->Ok_0;
    lemma_header_decode_exact(s);
    lemma_le16_exact(s.subrange(8, 10));
    lemma_array_of::<10>(s.subrange(10, 20));
    assert(r.encoding() =~= s.subrange(0, 20));
}

/// The encoding of what decodes as a port response is the 76 bytes it was
/// decoded from.
pub proof fn lemma_port_response_decode_exact(s: Seq<u8>)
    requires
        PortResponse::spec_decode(s) is Ok,
    ensures
        PortResponse::spec_decode(s) matches Ok(r) && r.header.wf() && r.encoding()
            == s.subrange(0, 76),
{
    let r = PortResponse::spec_decode(s)->Ok_0;
    lemma_header_decode_exact(s);
    lemma_le32_exact(s.subrange(8, 12));
    lemma_le32_exact(s.subrange(12, 16));
    lemma_udp_info_parse_exact(s.subrange(16, 40));
    lemma_array_of::<28>(s.subrange(40, 68));
    lemma_le64_exact(s.subrange(68, 76));
    assert(s.subrange(16, 40).subrange(0, 24) =~= s.subrange(16, 40));
    assert(r.encoding() =~= s.subrange(0, 76));
}

/// The encoding of what decodes as a login request is the 48 bytes it was
/// decoded from.
pub proof fn lemma_login_request_decode_exact(s: Seq<u8>)
    requires
        LoginRequest::spec_decode(s) is Ok,
    ensures
        LoginRequest::spec_decode(s) matches Ok(r) && r.header.wf() && r.encoding()
            == s.subrange(0, 48),
{
    let r = LoginRequest::spec_decode(s)->Ok_0;
    lemma_header_decode_exact(s);
    lemma_udp_info_parse_exact(s.subrange(8, 32));
    lemma_array_of::<12>(s.subrange(33, 45));
    lemma_array_of::<3>(s.subrange(45, 48));
    assert(s.subrange(8, 32).subrange(0, 24) =~= s.subrange(8, 32));
    assert(r.encoding() =~= s.subrange(0, 48));
}

} // verus!
