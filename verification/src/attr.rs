//! The tag-length-value attribute stream that follows the message header:
//! per-type payload layouts, the mandatory/optional boundary rule for
//! unrecognized type codes, and the 4-byte alignment padding of opaque
//! byte strings.

use vstd::prelude::*;
use vstd::pervasive::unreached;
use vstd::slice::slice_subrange;
use vstd::slice::slice_to_vec;

use crate::addr::addr_body;
use crate::addr::parse_address_at;
use crate::addr::SocketAddr;
use crate::bytes::be16;
use crate::bytes::be32;
use crate::bytes::push_u16;
use crate::bytes::push_u32;
use crate::bytes::read_u16;
use crate::bytes::read_u32;
use crate::bytes::u16_at;
use crate::bytes::u32_at;
use crate::err::DecodeError;

verus! {

pub const MAPPED_ADDRESS: u16 = 0x0001;
pub const RESPONSE_ADDRESS: u16 = 0x0002;
pub const CHANGE_REQUEST: u16 = 0x0003;
pub const SOURCE_ADDRESS: u16 = 0x0004;
pub const CHANGED_ADDRESS: u16 = 0x0005;
pub const USERNAME: u16 = 0x0006;
pub const PASSWORD: u16 = 0x0007;
pub const MESSAGE_INTEGRITY: u16 = 0x0008;
pub const ERROR_CODE: u16 = 0x0009;
pub const UNKNOWN_ATTRIBUTES: u16 = 0x000a;
pub const REFLECTED_FROM: u16 = 0x000b;

/// Attribute type codes at or below this boundary are mandatory: a decoder
/// that does not recognize one must reject the message.  Codes above it are
/// optional and may be skipped.
pub const MANDATORY_BOUNDARY: u16 = 0x7fff;

pub const CHANGE_REQUEST_IP: u32 = 0x20;
pub const CHANGE_REQUEST_PORT: u32 = 0x40;
pub const CHANGE_REQUEST_IP_AND_PORT: u32 = 0x60;

/// A request modifier asking the responder to reply from an alternate IP
/// and/or port.
#[derive(Clone, Copy, Debug, PartialEq, Eq, Structural)]
pub enum ChangeRequest {
    Ip,
    Port,
    IpAndPort,
}

/// One decoded or to-be-encoded attribute.  `UnknownOptional` is a sentinel
/// for a skipped attribute whose type code was unrecognized but above the
/// mandatory boundary; it has no encoding.
pub enum Attribute {
    MappedAddress(SocketAddr),
    ResponseAddress(SocketAddr),
    ChangedAddress(SocketAddr),
    SourceAddress(SocketAddr),
    ReflectedFrom(SocketAddr),
    ChangeRequest(ChangeRequest),
    MessageIntegrity(Vec<u8>),
    Username(Vec<u8>),
    UnknownOptional,
}

/// The mathematical shadow of `Attribute`: byte vectors become sequences.
pub enum AttrV {
    MappedAddress(SocketAddr),
    ResponseAddress(SocketAddr),
    ChangedAddress(SocketAddr),
    SourceAddress(SocketAddr),
    ReflectedFrom(SocketAddr),
    ChangeRequest(ChangeRequest),
    MessageIntegrity(Seq<u8>),
    Username(Seq<u8>),
    UnknownOptional,
}

impl View for Attribute {
    type V = AttrV;

    open spec fn view(&self) -> AttrV {
        match self {
            Attribute::MappedAddress(a) => AttrV::MappedAddress(*a),
            Attribute::ResponseAddress(a) => AttrV::ResponseAddress(*a),
            Attribute::ChangedAddress(a) => AttrV::ChangedAddress(*a),
            Attribute::SourceAddress(a) => AttrV::SourceAddress(*a),
            Attribute::ReflectedFrom(a) => AttrV::ReflectedFrom(*a),
            Attribute::ChangeRequest(c) => AttrV::ChangeRequest(*c),
            Attribute::MessageIntegrity(h) => AttrV::MessageIntegrity(h@),
            Attribute::Username(u) => AttrV::Username(u@),
            Attribute::UnknownOptional => AttrV::UnknownOptional,
        }
    }
}

/// The smallest multiple of 4 at or above `n`: the alignment rule for
/// opaque attribute bodies.
pub open spec fn pad4(n: int) -> int
    recommends
        0 <= n,
{
    ((n + 3) / 4) * 4
}

/// The 32-bit flag word of a change request.
pub open spec fn cr_flag(c: ChangeRequest) -> u32 {
    match c {
        ChangeRequest::Ip => CHANGE_REQUEST_IP,
        ChangeRequest::Port => CHANGE_REQUEST_PORT,
        ChangeRequest::IpAndPort => CHANGE_REQUEST_IP_AND_PORT,
    }
}

/// An opaque byte string padded with zero bytes up to the next multiple
/// of 4.
pub open spec fn username_body(u: Seq<u8>) -> Seq<u8> {
    u + Seq::new((pad4(u.len() as int) - u.len()) as nat, |i: int| 0u8)
}

/// The type code an attribute carries on the wire.
pub open spec fn attr_type_code(a: AttrV) -> u16
    recommends
        !(a is UnknownOptional),
{
    match a {
        AttrV::MappedAddress(_) => MAPPED_ADDRESS,
        AttrV::ResponseAddress(_) => RESPONSE_ADDRESS,
        AttrV::ChangedAddress(_) => CHANGED_ADDRESS,
        AttrV::SourceAddress(_) => SOURCE_ADDRESS,
        AttrV::ReflectedFrom(_) => REFLECTED_FROM,
        AttrV::ChangeRequest(_) => CHANGE_REQUEST,
        AttrV::MessageIntegrity(_) => MESSAGE_INTEGRITY,
        AttrV::Username(_) => USERNAME,
        AttrV::UnknownOptional => 0,
    }
}

/// The body bytes of an attribute, before the type/length prefix.
pub open spec fn attr_body(a: AttrV) -> Seq<u8>
    recommends
        !(a is UnknownOptional),
{
    match a {
        AttrV::MappedAddress(s) => addr_body(s),
        AttrV::ResponseAddress(s) => addr_body(s),
        AttrV::ChangedAddress(s) => addr_body(s),
        AttrV::SourceAddress(s) => addr_body(s),
        AttrV::ReflectedFrom(s) => addr_body(s),
        AttrV::ChangeRequest(c) => be32(cr_flag(c)),
        AttrV::MessageIntegrity(h) => h,
        AttrV::Username(u) => username_body(u),
        AttrV::UnknownOptional => Seq::empty(),
    }
}

/// A whole attribute record: type code, encoded body length, body.
pub open spec fn attr_tlv(a: AttrV) -> Seq<u8>
    recommends
        !(a is UnknownOptional),
{
    be16(attr_type_code(a)) + be16(attr_body(a).len() as u16) + attr_body(a)
}

/// What reading one attribute at `pos` yields.
pub enum AttrStep {
    /// Fewer than a full type/length pair remains: the stream is over.
    End,
    /// An attribute and the position after it.
    Attr(AttrV, int),
    /// A hard decode failure.
    Fail(DecodeError),
}

/// The attribute that starts at `pos` of `s`.  Known type codes read their
/// fixed-layout bodies (the declared length is not consulted); a change
/// request must hold one of the three defined flag words; an unknown code
/// at or below the mandatory boundary is rejected, while one above it skips
/// the declared length and yields `UnknownOptional`.
pub open spec fn parse_attr_at(s: Seq<u8>, pos: int) -> AttrStep
    recommends
        0 <= pos <= s.len(),
{
    if pos + 4 > s.len() {
        AttrStep::End
    } else {
        let typ = u16_at(s, pos);
        let len = u16_at(s, pos + 2);
        let body = pos + 4;
        if typ == MAPPED_ADDRESS || typ == RESPONSE_ADDRESS || typ == CHANGED_ADDRESS || typ
            == SOURCE_ADDRESS || typ == REFLECTED_FROM {
            match parse_address_at(s, body) {
                Ok((a, p)) => AttrStep::Attr(wrap_address(typ, a), p),
                Err(e) => AttrStep::Fail(e),
            }
        } else if typ == MESSAGE_INTEGRITY {
            if body + 20 > s.len() {
                AttrStep::Fail(DecodeError::Truncated)
            } else {
                AttrStep::Attr(AttrV::MessageIntegrity(s.subrange(body, body + 20)), body + 20)
            }
        } else if typ == CHANGE_REQUEST {
            if body + 4 > s.len() {
                AttrStep::Fail(DecodeError::Truncated)
            } else {
                let w = u32_at(s, body);
                if w == CHANGE_REQUEST_IP {
                    AttrStep::Attr(AttrV::ChangeRequest(ChangeRequest::Ip), body + 4)
                } else if w == CHANGE_REQUEST_PORT {
                    AttrStep::Attr(AttrV::ChangeRequest(ChangeRequest::Port), body + 4)
                } else if w == CHANGE_REQUEST_IP_AND_PORT {
                    AttrStep::Attr(AttrV::ChangeRequest(ChangeRequest::IpAndPort), body + 4)
                } else {
                    AttrStep::Fail(DecodeError::InvalidChangeRequest)
                }
            }
        } else if typ <= MANDATORY_BOUNDARY {
            AttrStep::Fail(DecodeError::UnknownMandatoryAttribute)
        } else {
            if body + len > s.len() {
                AttrStep::Attr(AttrV::UnknownOptional, s.len() as int)
            } else {
                AttrStep::Attr(AttrV::UnknownOptional, body + len)
            }
        }
    }
}

/// The address-carrying attribute for a given type code.
pub open spec fn wrap_address(typ: u16, a: SocketAddr) -> AttrV
    recommends
        typ == MAPPED_ADDRESS || typ == RESPONSE_ADDRESS || typ == CHANGED_ADDRESS || typ
            == SOURCE_ADDRESS || typ == REFLECTED_FROM,
{
    if typ == MAPPED_ADDRESS {
        AttrV::MappedAddress(a)
    } else if typ == RESPONSE_ADDRESS {
        AttrV::ResponseAddress(a)
    } else if typ == CHANGED_ADDRESS {
        AttrV::ChangedAddress(a)
    } else if typ == SOURCE_ADDRESS {
        AttrV::SourceAddress(a)
    } else {
        AttrV::ReflectedFrom(a)
    }
}

/// Reading an attribute always moves at least past its 4-byte prefix and
/// never past the end of the buffer.
pub proof fn lemma_parse_attr_advances(s: Seq<u8>, pos: int)
    requires
        0 <= pos <= s.len(),
    ensures
        parse_attr_at(s, pos) matches AttrStep::Attr(_, p) ==> pos + 4 <= p <= s.len(),
{
}

/// All attributes from `pos` to the end of the stream, in order; an `End`
/// outcome closes the list and a failure fails it.
pub open spec fn parse_all_attrs(s: Seq<u8>, pos: int) -> Result<Seq<AttrV>, DecodeError>
    recommends
        0 <= pos <= s.len(),
    decreases s.len() - pos,
{
    match parse_attr_at(s, pos) {
        AttrStep::End => Ok(Seq::empty()),
        AttrStep::Attr(a, p) => if pos < p <= s.len() {
            match parse_all_attrs(s, p) {
                Ok(rest) => Ok(seq![a] + rest),
                Err(e) => Err(e),
            }
        } else {
            // parse_attr_at always advances within bounds
            // (lemma_parse_attr_advances); the guard only closes the
            // termination argument.
            Ok(seq![a])
        },
        AttrStep::Fail(e) => Err(e),
    }
}

impl Attribute {
    /// Reads the 8-byte address record at `pos`: a discarded reserved byte,
    /// a family tag that must be 1 (IPv4), the port and the four address
    /// octets.
    pub fn read_address(msg: &[u8], pos: usize) -> (r: Result<(SocketAddr, usize), DecodeError>)
        requires
            pos <= msg@.len(),
        ensures
            (match parse_address_at(msg@, pos as int) {
                Ok((a, p)) => r matches Ok((b, np)) && b == a && np as int == p,
                Err(e) => r == Err::<(SocketAddr, usize), DecodeError>(e),
            }),
    {
        let n = msg.len();
        if n - pos < 8 {
            return Err(DecodeError::Truncated);
        }
        let fam = msg[pos + 1];
        if fam != 1 {
            return Err(DecodeError::UnsupportedAddressFamily);
        }
        let port = read_u16(msg, pos + 2);
        Ok(
            (
                SocketAddr::V4 {
                    ip0: msg[pos + 4],
                    ip1: msg[pos + 5],
                    ip2: msg[pos + 6],
                    ip3: msg[pos + 7],
                    port,
                },
                pos + 8,
            ),
        )
    }

    /// Reads one attribute at `pos`.  `Ok(None)` means fewer than a full
    /// type/length pair remained: the attribute stream is over.  A genuine
    /// truncation inside an attribute body is the hard failure `Truncated`.
    pub fn read(msg: &[u8], pos: usize) -> (r: Result<Option<(Attribute, usize)>, DecodeError>)
        requires
            pos <= msg@.len(),
        ensures
            (match parse_attr_at(msg@, pos as int) {
                AttrStep::End => r matches Ok(None),
                AttrStep::Attr(av, p) => r matches Ok(Some((a, np))) && a@ == av && np as int == p
                    && np <= msg@.len(),
                AttrStep::Fail(e) => r == Err::<Option<(Attribute, usize)>, DecodeError>(e),
            }),
    {
        let n = msg.len();
        if n - pos < 4 {
            return Ok(None);
        }
        let typ = read_u16(msg, pos);
        let len = read_u16(msg, pos + 2);
        let body = pos + 4;
        if typ == MAPPED_ADDRESS {
            let (a, np) = Self::read_address(msg, body)?;
            Ok(Some((Attribute::MappedAddress(a), np)))
        } else if typ == RESPONSE_ADDRESS {
            let (a, np) = Self::read_address(msg, body)?;
            Ok(Some((Attribute::ResponseAddress(a), np)))
        } else if typ == CHANGED_ADDRESS {
            let (a, np) = Self::read_address(msg, body)?;
            Ok(Some((Attribute::ChangedAddress(a), np)))
        } else if typ == SOURCE_ADDRESS {
            let (a, np) = Self::read_address(msg, body)?;
            Ok(Some((Attribute::SourceAddress(a), np)))
        } else if typ == REFLECTED_FROM {
            let (a, np) = Self::read_address(msg, body)?;
            Ok(Some((Attribute::ReflectedFrom(a), np)))
        } else if typ == MESSAGE_INTEGRITY {
            if n - body < 20 {
                return Err(DecodeError::Truncated);
            }
            let hash = slice_to_vec(slice_subrange(msg, body, body + 20));
            Ok(Some((Attribute::MessageIntegrity(hash), body + 20)))
        } else if typ == CHANGE_REQUEST {
            if n - body < 4 {
                return Err(DecodeError::Truncated);
            }
            let w = read_u32(msg, body);
            if w == CHANGE_REQUEST_IP {
                Ok(Some((Attribute::ChangeRequest(ChangeRequest::Ip), body + 4)))
            } else if w == CHANGE_REQUEST_PORT {
                Ok(Some((Attribute::ChangeRequest(ChangeRequest::Port), body + 4)))
            } else if w == CHANGE_REQUEST_IP_AND_PORT {
                Ok(Some((Attribute::ChangeRequest(ChangeRequest::IpAndPort), body + 4)))
            } else {
                Err(DecodeError::InvalidChangeRequest)
            }
        } else if typ <= MANDATORY_BOUNDARY {
            Err(DecodeError::UnknownMandatoryAttribute)
        } else {
            let rem = n - body;
            if (len as usize) > rem {
                Ok(Some((Attribute::UnknownOptional, n)))
            } else {
                Ok(Some((Attribute::UnknownOptional, body + len as usize)))
            }
        }
    }

    /// The attributes the encoder is defined on: everything but the
    /// `UnknownOptional` sentinel, with a 20-byte hash and a username whose
    /// padded body still fits the 16-bit length field.
    pub open spec fn encodable(&self) -> bool {
        match self {
            Attribute::UnknownOptional => false,
            Attribute::MessageIntegrity(h) => h@.len() == 20,
            Attribute::Username(u) => pad4(u@.len() as int) <= 0xffff,
            _ => true,
        }
    }

    /// Whether this attribute carries an endpoint outside the one address
    /// family the wire format can represent.
    pub open spec fn has_v6_address(&self) -> bool {
        match self {
            Attribute::MappedAddress(a) => !(a is V4),
            Attribute::ResponseAddress(a) => !(a is V4),
            Attribute::ChangedAddress(a) => !(a is V4),
            Attribute::SourceAddress(a) => !(a is V4),
            Attribute::ReflectedFrom(a) => !(a is V4),
            _ => false,
        }
    }

    /// Writes the fixed 8-byte record of an IPv4 endpoint: reserved zero
    /// byte, family tag 1, port, four address octets.  Any other family has
    /// no representation here and is rejected.
    pub fn encode_address(addr: &SocketAddr) -> (r: Result<Vec<u8>, DecodeError>)
        ensures
            *addr is V4 ==> (r matches Ok(v) && v@ == addr_body(*addr)),
            !(*addr is V4) ==> r == Err::<Vec<u8>, DecodeError>(
                DecodeError::UnsupportedAddressFamily,
            ),
    {
        let mut buf: Vec<u8> = Vec::new();
        buf.push(0x00);
        buf.push(0x01);
        match addr {
            SocketAddr::V4 { ip0, ip1, ip2, ip3, port } => {
                push_u16(&mut buf, *port);
                buf.push(*ip0);
                buf.push(*ip1);
                buf.push(*ip2);
                buf.push(*ip3);
                proof {
                    assert(buf@ =~= addr_body(*addr));
                }
                Ok(buf)
            },
            SocketAddr::V6 { .. } => Err(DecodeError::UnsupportedAddressFamily),
        }
    }

    /// Writes the fixed 4-byte flag word of a change request.
    pub fn encode_change_request(c: &ChangeRequest) -> (r: Vec<u8>)
        ensures
            r@ == be32(cr_flag(*c)),
    {
        let mut buf: Vec<u8> = Vec::new();
        match c {
            ChangeRequest::Ip => push_u32(&mut buf, CHANGE_REQUEST_IP),
            ChangeRequest::Port => push_u32(&mut buf, CHANGE_REQUEST_PORT),
            ChangeRequest::IpAndPort => push_u32(&mut buf, CHANGE_REQUEST_IP_AND_PORT),
        }
        proof {
            assert(buf@ =~= be32(cr_flag(*c)));
        }
        buf
    }

    /// Copies an opaque byte string and pads it with zero bytes to the next
    /// multiple of 4.
    fn encode_username(u: &Vec<u8>) -> (r: Vec<u8>)
        requires
            pad4(u@.len() as int) <= 0xffff,
        ensures
            r@ == username_body(u@),
    {
        proof {
            lemma_pad4(u@.len() as int);
        }
        let mut b = slice_to_vec(u.as_slice());
        let total = ((u.len() + 3) / 4) * 4;
        while b.len() < total
            invariant
                u@.len() <= b@.len() <= total,
                total == pad4(u@.len() as int),
                b@.subrange(0, u@.len() as int) == u@,
                forall|j: int| u@.len() <= j < b@.len() ==> b@[j] == 0,
            decreases total - b@.len(),
        {
            b.push(0x00);
            proof {
                assert(b@.subrange(0, u@.len() as int) =~= u@);
            }
        }
        proof {
            assert(b@ =~= username_body(u@));
        }
        b
    }

    /// Appends this attribute's whole record to `buf`: type code, encoded
    /// body length, body.  Only an address of the wrong family fails, and
    /// the buffer is then left untouched.
    pub fn encode(&self, buf: &mut Vec<u8>) -> (r: Result<(), DecodeError>)
        requires
            self.encodable(),
        ensures
            !self.has_v6_address() ==> r == Ok::<(), DecodeError>(()) && final(buf)@ == old(buf)@
                + attr_tlv(self@),
            self.has_v6_address() ==> r == Err::<(), DecodeError>(
                DecodeError::UnsupportedAddressFamily,
            ) && final(buf)@ == old(buf)@,
    {
        let (typ, mut opaque): (u16, Vec<u8>) = match self {
            Attribute::MappedAddress(a) => (MAPPED_ADDRESS, Self::encode_address(a)?),
            Attribute::ResponseAddress(a) => (RESPONSE_ADDRESS, Self::encode_address(a)?),
            Attribute::ChangedAddress(a) => (CHANGED_ADDRESS, Self::encode_address(a)?),
            Attribute::SourceAddress(a) => (SOURCE_ADDRESS, Self::encode_address(a)?),
            Attribute::ReflectedFrom(a) => (REFLECTED_FROM, Self::encode_address(a)?),
            Attribute::MessageIntegrity(h) => (MESSAGE_INTEGRITY, slice_to_vec(h.as_slice())),
            Attribute::Username(u) => (USERNAME, Self::encode_username(u)),
            Attribute::ChangeRequest(c) => (CHANGE_REQUEST, Self::encode_change_request(c)),
            Attribute::UnknownOptional => unreached(),
        };
        proof {
            match self {
                Attribute::Username(u) => lemma_pad4(u@.len() as int),
                _ => (),
            }
            assert(typ == attr_type_code(self@));
            assert(opaque@ == attr_body(self@));
            assert(opaque@.len() <= 0xffff);
        }
        push_u16(buf, typ);
        push_u16(buf, opaque.len() as u16);
        buf.append(&mut opaque);
        proof {
            assert(buf@ =~= old(buf)@ + attr_tlv(self@));
        }
        Ok(())
    }
}

/// `pad4(n)` is the smallest multiple of 4 at or above `n`.
pub proof fn lemma_pad4(n: int)
    requires
        0 <= n,
    ensures
        n <= pad4(n) < n + 4,
        pad4(n) % 4 == 0,
{
    let q = (n + 3) / 4;
    assert(n + 3 == 4 * q + (n + 3) % 4);
    assert(q * 4 == 4 * q) by (nonlinear_arith);
    assert((q * 4) % 4 == 0) by (nonlinear_arith);
}

/// Opaque-string padding: a string of `n` bytes encodes to a body of
/// `4 * ceil(n / 4)` bytes (which is `pad4(n)`), the string itself followed
/// by zero bytes, so the value is recovered by stripping exactly
/// `pad4(n) - n` trailing zeros.
pub proof fn lemma_username_padding(u: Seq<u8>)
    ensures
        username_body(u).len() == pad4(u.len() as int),
        u.len() <= pad4(u.len() as int) < u.len() + 4,
        pad4(u.len() as int) % 4 == 0,
        username_body(u).subrange(0, u.len() as int) == u,
        forall|j: int| u.len() <= j < pad4(u.len() as int) ==> username_body(u)[j] == 0,
{
    lemma_pad4(u.len() as int);
    assert(username_body(u).subrange(0, u.len() as int) =~= u);
}

/// An encoded username attribute cannot be read back: its type code sits
/// at or below the mandatory boundary and the attribute reader does not
/// know it, so a stream that reaches one fails with
/// `UnknownMandatoryAttribute`.  This is the one attribute the codec writes
/// but never reads.
pub proof fn lemma_username_attr_unreadable(s: Seq<u8>, pos: int, u: Seq<u8>)
    requires
        0 <= pos,
        pad4(u.len() as int) <= 0xffff,
        pos + attr_tlv(AttrV::Username(u)).len() <= s.len(),
        s.subrange(pos, pos + attr_tlv(AttrV::Username(u)).len() as int) == attr_tlv(
            AttrV::Username(u),
        ),
    ensures
        parse_attr_at(s, pos) == AttrStep::Fail(DecodeError::UnknownMandatoryAttribute),
{
    let t = attr_tlv(AttrV::Username(u));
    lemma_pad4(u.len() as int);
    assert(t[0] == be16(USERNAME)[0]);
    assert(t[1] == be16(USERNAME)[1]);
    assert(s[pos] == s.subrange(pos, pos + t.len() as int)[0]);
    assert(s[pos + 1] == s.subrange(pos, pos + t.len() as int)[1]);
    crate::bytes::lemma_be16_inverse(USERNAME);
    assert(u16_at(s, pos) == USERNAME);
}

/// A record of a known fixed-layout attribute (an IPv4 address, a change
/// request, a 20-byte hash), sitting anywhere in a buffer, parses back to
/// that very attribute.
pub proof fn lemma_parse_attr_tlv(s: Seq<u8>, pos: int, av: AttrV)
    requires
        0 <= pos,
        !(av is UnknownOptional),
        !(av is Username),
        (av matches AttrV::MappedAddress(a) ==> a is V4),
        (av matches AttrV::ResponseAddress(a) ==> a is V4),
        (av matches AttrV::ChangedAddress(a) ==> a is V4),
        (av matches AttrV::SourceAddress(a) ==> a is V4),
        (av matches AttrV::ReflectedFrom(a) ==> a is V4),
        (av matches AttrV::MessageIntegrity(h) ==> h.len() == 20),
        pos + attr_tlv(av).len() <= s.len(),
        s.subrange(pos, pos + attr_tlv(av).len() as int) == attr_tlv(av),
    ensures
        parse_attr_at(s, pos) == AttrStep::Attr(av, pos + attr_tlv(av).len()),
{
    let t = attr_tlv(av);
    let code = attr_type_code(av);
    let bodyseq = attr_body(av);
    let l = bodyseq.len() as int;
    assert(t.len() == 4 + l);
    assert(forall|i: int| 0 <= i < t.len() ==> s[pos + i] == #[trigger] t[i]) by {
        assert forall|i: int| 0 <= i < t.len() implies s[pos + i] == #[trigger] t[i] by {
            assert(s.subrange(pos, pos + t.len() as int)[i] == s[pos + i]);
        }
    }
    assert(t[0] == be16(code)[0]);
    assert(t[1] == be16(code)[1]);
    crate::bytes::lemma_be16_inverse(code);
    assert(u16_at(s, pos) == code);
    assert(s.subrange(pos + 4, pos + 4 + l) =~= bodyseq) by {
        assert forall|k: int| 0 <= k < l implies #[trigger] s.subrange(pos + 4, pos + 4 + l)[k]
            == bodyseq[k] by {
            assert(s[pos + 4 + k] == t[4 + k]);
            assert(t[4 + k] == bodyseq[k]);
        }
    }
    match av {
        AttrV::MappedAddress(a) => {
            crate::addr::lemma_parse_address_at(s, pos + 4, a);
        },
        AttrV::ResponseAddress(a) => {
            crate::addr::lemma_parse_address_at(s, pos + 4, a);
        },
        AttrV::ChangedAddress(a) => {
            crate::addr::lemma_parse_address_at(s, pos + 4, a);
        },
        AttrV::SourceAddress(a) => {
            crate::addr::lemma_parse_address_at(s, pos + 4, a);
        },
        AttrV::ReflectedFrom(a) => {
            crate::addr::lemma_parse_address_at(s, pos + 4, a);
        },
        AttrV::MessageIntegrity(h) => {
            assert(s.subrange(pos + 4, pos + 24) =~= h);
        },
        AttrV::ChangeRequest(c) => {
            let w = cr_flag(c);
            crate::bytes::lemma_be32_inverse(w);
            assert(t[4] == be32(w)[0]);
            assert(t[5] == be32(w)[1]);
            assert(t[6] == be32(w)[2]);
            assert(t[7] == be32(w)[3]);
            assert(u16_at(s, pos + 4) == u16_at(be32(w), 0));
            assert(u16_at(s, pos + 6) == u16_at(be32(w), 2));
            assert(u32_at(s, pos + 4) == w);
        },
        AttrV::Username(_) => {},
        AttrV::UnknownOptional => {},
    }
}

} // verus!
