//! The socket endpoints the codec speaks of, and the 8-byte address record
//! that carries one on the wire: a reserved zero byte, a family tag (1 means
//! IPv4), a 16-bit port, then the four address octets.  Only IPv4 endpoints
//! have a wire representation.

use vstd::prelude::*;

use crate::bytes::be16;
use crate::bytes::u16_at;
use crate::err::DecodeError;

verus! {

/// A socket endpoint.  The wire format can carry only the `V4` form; handing
/// the encoder a `V6` endpoint fails with `UnsupportedAddressFamily`.
#[derive(Clone, Copy, Debug, PartialEq, Eq, Structural)]
pub enum SocketAddr {
    V4 { ip0: u8, ip1: u8, ip2: u8, ip3: u8, port: u16 },
    V6 { port: u16 },
}

/// The 8-byte address-record body of an IPv4 endpoint.
pub open spec fn addr_body(a: SocketAddr) -> Seq<u8>
    recommends
        a is V4,
{
    match a {
        SocketAddr::V4 { ip0, ip1, ip2, ip3, port } => {
            seq![0u8, 1u8] + be16(port) + seq![ip0, ip1, ip2, ip3]
        },
        SocketAddr::V6 { .. } => Seq::empty(),
    }
}

/// What reading an address record at `pos` of `s` yields: the endpoint and
/// the position after it, `Truncated` if fewer than 8 bytes remain, and
/// `UnsupportedAddressFamily` if the family tag is not 1.  The reserved
/// first byte is ignored.
pub open spec fn parse_address_at(s: Seq<u8>, pos: int) -> Result<(SocketAddr, int), DecodeError>
    recommends
        0 <= pos <= s.len(),
{
    if pos + 8 > s.len() {
        Err(DecodeError::Truncated)
    } else if s[pos + 1] != 1 {
        Err(DecodeError::UnsupportedAddressFamily)
    } else {
        Ok(
            (
                SocketAddr::V4 {
                    ip0: s[pos + 4],
                    ip1: s[pos + 5],
                    ip2: s[pos + 6],
                    ip3: s[pos + 7],
                    port: u16_at(s, pos + 2),
                },
                pos + 8,
            ),
        )
    }
}

/// Wherever the record bytes of an IPv4 endpoint sit in a buffer, reading
/// an address there gives back that very endpoint.
pub proof fn lemma_parse_address_at(s: Seq<u8>, pos: int, a: SocketAddr)
    requires
        a is V4,
        0 <= pos,
        pos + 8 <= s.len(),
        s.subrange(pos, pos + 8) == addr_body(a),
    ensures
        parse_address_at(s, pos) == Ok::<(SocketAddr, int), DecodeError>((a, pos + 8)),
{
    let t = addr_body(a);
    match a {
        SocketAddr::V4 { ip0, ip1, ip2, ip3, port } => {
            assert(t.len() == 8);
            assert(forall|i: int| 0 <= i < 8 ==> s[pos + i] == #[trigger] t[i]) by {
                assert forall|i: int| 0 <= i < 8 implies s[pos + i] == #[trigger] t[i] by {
                    assert(s.subrange(pos, pos + 8)[i] == s[pos + i]);
                }
            }
            assert(t[1] == 1u8);
            assert(t[2] == be16(port)[0]);
            assert(t[3] == be16(port)[1]);
            assert(t[4] == ip0);
            assert(t[5] == ip1);
            assert(t[6] == ip2);
            assert(t[7] == ip3);
            crate::bytes::lemma_be16_inverse(port);
            assert(s[pos + 1] == t[1]);
            assert(s[pos + 2] == t[2] && s[pos + 3] == t[3]);
            assert(u16_at(s, pos + 2) == port);
            assert(s[pos + 4] == t[4] && s[pos + 5] == t[5] && s[pos + 6] == t[6] && s[pos + 7]
                == t[7]);
        },
        SocketAddr::V6 { .. } => {},
    }
}

/// Decoding the record that an IPv4 endpoint encodes to gives back that very
/// endpoint: the address codec round-trips.
pub proof fn lemma_address_round_trip(a: SocketAddr)
    requires
        a is V4,
    ensures
        parse_address_at(addr_body(a), 0) == Ok::<(SocketAddr, int), DecodeError>((a, 8)),
{
    assert(addr_body(a).subrange(0, 8) =~= addr_body(a));
    lemma_parse_address_at(addr_body(a), 0, a);
}

/// A record whose family tag is anything but 1 is rejected as
/// `UnsupportedAddressFamily`, whatever the rest of its bytes hold.
pub proof fn lemma_address_family_rejected(s: Seq<u8>, pos: int)
    requires
        0 <= pos,
        pos + 8 <= s.len(),
        s[pos + 1] != 1,
    ensures
        parse_address_at(s, pos) == Err::<(SocketAddr, int), DecodeError>(
            DecodeError::UnsupportedAddressFamily,
        ),
{
}

/// Two IPv4 endpoints with the same record bytes are the same endpoint:
/// encoding is injective.
pub proof fn lemma_addr_body_injective(a: SocketAddr, b: SocketAddr)
    requires
        a is V4,
        b is V4,
        addr_body(a) == addr_body(b),
    ensures
        a == b,
{
    lemma_address_round_trip(a);
    lemma_address_round_trip(b);
}

/// Decoding then re-encoding a well-formed record (reserved byte zero,
/// family tag 1) reproduces its bytes: together with the round-trip above,
/// the codec is a bijection between IPv4 endpoints and such records.
pub proof fn lemma_address_reencode(s: Seq<u8>, pos: int)
    requires
        0 <= pos,
        pos + 8 <= s.len(),
        s[pos] == 0,
        s[pos + 1] == 1,
    ensures
        parse_address_at(s, pos) is Ok,
        addr_body(parse_address_at(s, pos)->Ok_0.0) == s.subrange(pos, pos + 8),
{
    let a = parse_address_at(s, pos)->Ok_0.0;
    let t = addr_body(a);
    let port = u16_at(s, pos + 2);
    assert(be16(port)[0] == s[pos + 2] && be16(port)[1] == s[pos + 3]) by {
        assert((s[pos + 2] * 0x100 + s[pos + 3]) / 0x100 == s[pos + 2]) by (nonlinear_arith);
        assert((s[pos + 2] * 0x100 + s[pos + 3]) % 0x100 == s[pos + 3]) by (nonlinear_arith);
    }
    assert(t =~= s.subrange(pos, pos + 8));
}

} // verus!
