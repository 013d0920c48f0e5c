//! The 24-byte address block of the handshake messages.

use vstd::prelude::*;
use crate::error::DecodeError;
use crate::wire::{array_of, be16, be16_bytes, lemma_array_of, lemma_array_of_view, lemma_be16_exact, lemma_be16_roundtrip, read_array, read_be16, write_be16, write_bytes};

verus! {

/// Bytes taken by an address block on the wire.
pub const UDP_INFO_SIZE: usize = 24;

/// Eighteen bytes of unknown meaning, a UDP port and an IPv4 address.
///
/// The port is the one big-endian integer of the protocol.
#[derive(Debug, Clone, Copy, PartialEq, Eq)]
pub struct TUDPInfo {
    pub unknown: [u8; 18],
    pub udp_port: u16,
    pub ip_addr: [u8; 4],
}

impl TUDPInfo {
    /// The 24 bytes of the block: the unknown bytes, the port with its
    /// high byte first, the address in network order.
    pub open spec fn encoding(&self) -> Seq<u8> {
        self.unknown@ + be16_bytes(self.udp_port) + self.ip_addr@
    }

    /// The block held by the first 24 bytes of `s`.
    pub open spec fn spec_parse(s: Seq<u8>) -> TUDPInfo {
        TUDPInfo {
            unknown: array_of::<18>(s.subrange(0, 18)),
            udp_port: be16(s.subrange(18, 20)) as u16,
            ip_addr: array_of::<4>(s.subrange(20, 24)),
        }
    }

    /// What the first 24 bytes of `s` decode to. Bytes after them are not
    /// looked at.
    pub open spec fn spec_decode(s: Seq<u8>) -> Result<TUDPInfo, DecodeError> {
        if s.len() < 24 {
            Err(DecodeError::ShortBuffer)
        } else {
            Ok(Self::spec_parse(s))
        }
    }

    /// The block that announces the local endpoint `ip_addr:udp_port`: the
    /// unknown bytes are sent as zeros.
    pub fn new(udp_port: u16, ip_addr: [u8; 4]) -> (u: Self)
        ensures
            u.unknown@ == Seq::new(18, |i: int| 0u8),
            u.udp_port == udp_port,
            u.ip_addr == ip_addr,
    {
        let u = TUDPInfo { unknown: [0u8; 18], udp_port, ip_addr };
        assert(u.unknown@ =~= Seq::new(18, |i: int| 0u8));
        u
    }

    /// The block as it goes on the wire.
    pub fn encode(&self) -> (out: Vec<u8>)
        ensures
            out@ == self.encoding(),
            out@.len() == UDP_INFO_SIZE,
    {
        let mut out: Vec<u8> = Vec::new();
        self.encode_into(&mut out);
        out
    }

    /// Appends the block as it goes on the wire.
    pub fn encode_into(&self, out: &mut Vec<u8>)
        ensures
            final(out)@ == old(out)@ + self.encoding(),
            self.encoding().len() == UDP_INFO_SIZE,
    {
        write_bytes(out, &self.unknown);
        write_be16(out, self.udp_port);
        write_bytes(out, &self.ip_addr);
        assert(out@ =~= old(out)@ + self.encoding());
    }

    /// Reads the block that starts at `at`.
    pub fn parse_at(buf: &[u8], at: usize) -> (u: Self)
        requires
            at + 24 <= buf.len(),
        ensures
            u == Self::spec_parse(buf@.subrange(at as int, at + 24)),
    {
        let unknown: [u8; 18] = read_array::<18>(buf, at);
        let udp_port = read_be16(buf, at + 18);
        let ip_addr: [u8; 4] = read_array::<4>(buf, at + 20);
        proof {
            let s = buf@.subrange(at as int, at + 24);
            lemma_array_of_view(unknown);
            lemma_array_of_view(ip_addr);
            assert(s.subrange(0, 18) =~= buf@.subrange(at as int, at + 18));
            assert(s.subrange(18, 20) =~= buf@.subrange(at + 18, at + 20));
            assert(s.subrange(20, 24) =~= buf@.subrange(at + 20, at + 24));
        }
        TUDPInfo { unknown, udp_port, ip_addr }
    }

    /// Reads a block from the front of `buf`.
    pub fn decode(buf: &[u8]) -> (r: Result<Self, DecodeError>)
        ensures
            r == Self::spec_decode(buf@),
    {
        if buf.len() < UDP_INFO_SIZE {
            return Err(DecodeError::ShortBuffer);
        }
        let u = Self::parse_at(buf, 0);
        proof {
            let s = buf@.subrange(0, 24);
            assert(s.subrange(0, 18) =~= buf@.subrange(0, 18));
            assert(s.subrange(18, 20) =~= buf@.subrange(18, 20));
            assert(s.subrange(20, 24) =~= buf@.subrange(20, 24));
        }
        Ok(u)
    }
}

/// The block is recovered from its encoding, whatever bytes follow it.
pub proof fn lemma_udp_info_parse(u: TUDPInfo, tail: Seq<u8>)
    ensures
        u.encoding().len() == UDP_INFO_SIZE,
        TUDPInfo::spec_parse(u.encoding() + tail) == u,
{
    let s = u.encoding() + tail;
    lemma_be16_roundtrip(u.udp_port);
    lemma_array_of_view(u.unknown);
    lemma_array_of_view(u.ip_addr);
    assert(s.subrange(0, 18) =~= u.unknown@);
    assert(s.subrange(18, 20) =~= be16_bytes(u.udp_port));
    assert(s.subrange(20, 24) =~= u.ip_addr@);
}

/// Decoding the encoding of an address block gives the block back,
/// whatever bytes follow it.
pub proof fn lemma_udp_info_roundtrip(u: TUDPInfo, tail: Seq<u8>)
    ensures
        TUDPInfo::spec_decode(u.encoding() + tail) == Ok::<TUDPInfo, DecodeError>(u),
{
    lemma_udp_info_parse(u, tail);
}

/// The port travels with its high byte first: it stands at bytes 18 and 19
/// of the block in big-endian order, and reads back as itself.
pub proof fn lemma_udp_port_big_endian(u: TUDPInfo)
    ensures
        u.encoding().subrange(18, 20) == be16_bytes(u.udp_port),
        u.encoding()[18] == u.udp_port / 256,
        u.encoding()[19] == u.udp_port % 256,
        TUDPInfo::spec_parse(u.encoding()).udp_port == u.udp_port,
{
    lemma_udp_info_parse(u, Seq::empty());
    assert(u.encoding() + Seq::<u8>::empty() =~= u.encoding());
    assert(u.encoding().subrange(18, 20) =~= be16_bytes(u.udp_port));
}

/// The encoding of the block that 24 bytes hold is those 24 bytes.
pub proof fn lemma_udp_info_parse_exact(s: Seq<u8>)
    requires
        s.len() >= 24,
    ensures
        TUDPInfo::spec_parse(s).encoding() == s.subrange(0, 24),
{
    lemma_array_of::<18>(s.subrange(0, 18));
    lemma_be16_exact(s.subrange(18, 20));
    lemma_array_of::<4>(s.subrange(20, 24));
    assert(TUDPInfo::spec_parse(s).encoding() =~= s.subrange(0, 24));
}

} // verus!
