//! Message framing: the fixed 20-byte header, dispatch on the message type
//! code, assembly of a binding response from its attribute stream, and the
//! trailing integrity check.

use vstd::prelude::*;
use vstd::pervasive::unreached;
use vstd::slice::slice_subrange;
use vstd::slice::slice_to_vec;

use crate::addr::SocketAddr;
use crate::attr::attr_tlv;
use crate::attr::pad4;
use crate::attr::parse_all_attrs;
use crate::attr::parse_attr_at;
use crate::attr::lemma_parse_attr_advances;
use crate::attr::lemma_parse_attr_tlv;
use crate::attr::lemma_username_attr_unreadable;
use crate::attr::AttrStep;
use crate::attr::AttrV;
use crate::attr::Attribute;
use crate::attr::ChangeRequest;
use crate::bytes::be16;
use crate::bytes::be64;
use crate::bytes::push_u16;
use crate::bytes::push_u64;
use crate::bytes::read_u16;
use crate::bytes::read_u64;
use crate::bytes::u16_at;
use crate::bytes::u64_at;
use crate::err::DecodeError;
use crate::err::MandatoryField;
use crate::integrity::bytes_equal_ct;
use crate::integrity::sha1;
use crate::integrity::sha1_of;

verus! {

pub const BINDING_REQUEST: u16 = 0x0001;
pub const BINDING_RESPONSE: u16 = 0x0101;
pub const BINDING_ERROR: u16 = 0x0111;
pub const SHARED_SECRET_REQUEST: u16 = 0x0002;
pub const SHARED_SECRET_RESPONSE: u16 = 0x0102;
pub const SHARED_SECRET_ERROR: u16 = 0x0112;

/// An outbound request.  Only `Bind` has an encoding; a shared-secret
/// exchange is deliberately not implemented.
#[derive(Debug, Clone)]
pub enum Request {
    Bind(BindRequest),
    SharedSecret,
}

/// A decoded inbound response.  Only a binding response is decoded; the
/// other recognized message kinds are deliberately not.
#[derive(Debug, PartialEq)]
pub enum Response {
    Bind(BindResponse),
}

/// A binding request.  Every field is optional; an absent field is simply
/// left out of the encoded attribute stream.
#[derive(Debug, Clone)]
pub struct BindRequest {
    pub response_address: Option<SocketAddr>,
    pub change_request: Option<ChangeRequest>,
    pub username: Option<Vec<u8>>,
}

/// The mathematical shadow of `BindRequest`: the username byte vector
/// becomes a sequence.
pub struct BindRequestV {
    pub response_address: Option<SocketAddr>,
    pub change_request: Option<ChangeRequest>,
    pub username: Option<Seq<u8>>,
}

impl View for BindRequest {
    type V = BindRequestV;

    open spec fn view(&self) -> BindRequestV {
        BindRequestV {
            response_address: self.response_address,
            change_request: self.change_request,
            username: match self.username {
                Some(u) => Some(u@),
                None => None,
            },
        }
    }
}

impl Default for BindRequest {
    /// The request with every optional field absent.
    fn default() -> (r: BindRequest)
        ensures
            r.response_address is None,
            r.change_request is None,
            r.username is None,
    {
        BindRequest { response_address: None, change_request: None, username: None }
    }
}

/// A decoded binding response.  Construction is all-or-nothing: the three
/// mandatory addresses are always present.
#[derive(Debug, PartialEq)]
pub struct BindResponse {
    pub mapped_address: SocketAddr,
    pub source_address: SocketAddr,
    pub changed_address: SocketAddr,
    pub reflected_from: Option<SocketAddr>,
}

/// The codec.  It holds no state: both directions are pure functions over
/// their buffers.
pub struct StunCodec;

/// Whether a binding request can be encoded at all: a username, if present,
/// must still fit the 16-bit body-length field once padded.
pub open spec fn bind_request_encodable(r: BindRequestV) -> bool {
    match r.username {
        Some(u) => pad4(u.len() as int) <= 0xffff,
        None => true,
    }
}

/// Whether the one encode failure applies: a response address outside the
/// IPv4 family.
pub open spec fn bind_request_v6(r: BindRequestV) -> bool {
    match r.response_address {
        Some(a) => !(a is V4),
        None => false,
    }
}

/// The attribute records of a request's present fields, in their fixed
/// declaration order: response address, change request, username.
pub open spec fn bind_request_bytes(r: BindRequestV) -> Seq<u8>
    recommends
        !bind_request_v6(r),
{
    (match r.response_address {
        Some(a) => attr_tlv(AttrV::ResponseAddress(a)),
        None => Seq::empty(),
    }) + (match r.change_request {
        Some(c) => attr_tlv(AttrV::ChangeRequest(c)),
        None => Seq::empty(),
    }) + (match r.username {
        Some(u) => attr_tlv(AttrV::Username(u)),
        None => Seq::empty(),
    })
}

/// The attributes of a request's present fields, in the same order.
pub open spec fn request_attrs(r: BindRequestV) -> Seq<AttrV> {
    (match r.response_address {
        Some(a) => seq![AttrV::ResponseAddress(a)],
        None => Seq::empty(),
    }) + (match r.change_request {
        Some(c) => seq![AttrV::ChangeRequest(c)],
        None => Seq::empty(),
    }) + (match r.username {
        Some(u) => seq![AttrV::Username(u)],
        None => Seq::empty(),
    })
}

/// A whole wire message: type code, body length, the all-zero reserved
/// transaction half, the correlator, then the body.
pub open spec fn message_bytes(typ: u16, correlator: u64, body: Seq<u8>) -> Seq<u8>
    recommends
        body.len() <= 0xffff,
{
    be16(typ) + be16(body.len() as u16) + be64(0) + be64(correlator) + body
}

/// The accumulator of binding-response assembly: which attributes have been
/// seen so far.
pub struct AsmState {
    pub mapped: Option<SocketAddr>,
    pub source: Option<SocketAddr>,
    pub changed: Option<SocketAddr>,
    pub reflected: Option<SocketAddr>,
    pub integrity: Option<Seq<u8>>,
}

/// The state before any attribute has been seen.
pub open spec fn init_state() -> AsmState {
    AsmState { mapped: None, source: None, changed: None, reflected: None, integrity: None }
}

/// Whether an attribute keeps the assembly loop running.  Anything else a
/// binding response could carry ends the stream.
pub open spec fn absorbs(a: AttrV) -> bool {
    match a {
        AttrV::MappedAddress(_) => true,
        AttrV::SourceAddress(_) => true,
        AttrV::ChangedAddress(_) => true,
        AttrV::ReflectedFrom(_) => true,
        AttrV::MessageIntegrity(_) => true,
        AttrV::UnknownOptional => true,
        _ => false,
    }
}

/// One assembly step: an address or the hash fills its slot only if the
/// slot is still empty (the first occurrence wins, a duplicate is silently
/// ignored); the unknown-optional sentinel changes nothing.
pub open spec fn step_state(st: AsmState, a: AttrV) -> AsmState {
    match a {
        AttrV::MappedAddress(x) => if st.mapped is None {
            AsmState {
                mapped: Some(x),
                source: st.source,
                changed: st.changed,
                reflected: st.reflected,
                integrity: st.integrity,
            }
        } else {
            st
        },
        AttrV::SourceAddress(x) => if st.source is None {
            AsmState {
                mapped: st.mapped,
                source: Some(x),
                changed: st.changed,
                reflected: st.reflected,
                integrity: st.integrity,
            }
        } else {
            st
        },
        AttrV::ChangedAddress(x) => if st.changed is None {
            AsmState {
                mapped: st.mapped,
                source: st.source,
                changed: Some(x),
                reflected: st.reflected,
                integrity: st.integrity,
            }
        } else {
            st
        },
        AttrV::ReflectedFrom(x) => if st.reflected is None {
            AsmState {
                mapped: st.mapped,
                source: st.source,
                changed: st.changed,
                reflected: Some(x),
                integrity: st.integrity,
            }
        } else {
            st
        },
        AttrV::MessageIntegrity(h) => if st.integrity is None {
            AsmState {
                mapped: st.mapped,
                source: st.source,
                changed: st.changed,
                reflected: st.reflected,
                integrity: Some(h),
            }
        } else {
            st
        },
        _ => st,
    }
}

/// Folds the attribute stream from `pos` into the assembly state: running
/// out of bytes ends the stream, a hard attribute failure fails the whole
/// decode, and an attribute a binding response does not absorb ends the
/// stream successfully.
pub open spec fn assemble(s: Seq<u8>, pos: int, st: AsmState) -> Result<AsmState, DecodeError>
    recommends
        0 <= pos <= s.len(),
    decreases s.len() - pos,
{
    match parse_attr_at(s, pos) {
        AttrStep::End => Ok(st),
        AttrStep::Fail(e) => Err(e),
        AttrStep::Attr(a, p) => if absorbs(a) && pos < p <= s.len() {
            assemble(s, p, step_state(st, a))
        } else {
            Ok(st)
        },
    }
}

/// The checks after the stream: a present integrity hash must equal the
/// digest of all but the last 24 bytes of the message, and the three
/// mandatory addresses must have been seen.
pub open spec fn finish(s: Seq<u8>, st: AsmState) -> Result<BindResponse, DecodeError> {
    if st.integrity matches Some(h) && h != sha1_of(s.subrange(0, s.len() - 24)) {
        Err(DecodeError::IntegrityViolation)
    } else if st.mapped is None {
        Err(DecodeError::MissingMandatoryAttribute(MandatoryField::MappedAddress))
    } else if st.source is None {
        Err(DecodeError::MissingMandatoryAttribute(MandatoryField::SourceAddress))
    } else if st.changed is None {
        Err(DecodeError::MissingMandatoryAttribute(MandatoryField::ChangedAddress))
    } else {
        Ok(
            (BindResponse {
                mapped_address: st.mapped->Some_0,
                source_address: st.source->Some_0,
                changed_address: st.changed->Some_0,
                reflected_from: st.reflected,
            }),
        )
    }
}

/// What decoding the bytes after the header of a binding response yields.
pub open spec fn binding_response_spec(s: Seq<u8>) -> Result<BindResponse, DecodeError>
    recommends
        s.len() >= 20,
{
    match assemble(s, 20, init_state()) {
        Ok(st) => finish(s, st),
        Err(e) => Err(e),
    }
}

/// The meaning of `decode` on any buffer: a too-short header is
/// `Truncated`; a non-zero reserved transaction half is
/// `MalformedTransactionId` whatever follows; a binding response is
/// assembled from its attributes; the three other recognized type codes are
/// `UnsupportedMessageType`; everything else is `UnknownMessageType`.
pub open spec fn decode_spec(s: Seq<u8>) -> Result<(u64, Response), DecodeError> {
    if s.len() < 20 {
        Err(DecodeError::Truncated)
    } else {
        let typ = u16_at(s, 0);
        let t1 = u64_at(s, 4);
        let t2 = u64_at(s, 12);
        if t1 != 0 {
            Err(DecodeError::MalformedTransactionId)
        } else if typ == BINDING_RESPONSE {
            match binding_response_spec(s) {
                Ok(r) => Ok((t2, Response::Bind(r))),
                Err(e) => Err(e),
            }
        } else if typ == BINDING_ERROR || typ == SHARED_SECRET_RESPONSE || typ
            == SHARED_SECRET_ERROR {
            Err(DecodeError::UnsupportedMessageType)
        } else {
            Err(DecodeError::UnknownMessageType)
        }
    }
}

/// The view of the assembly loop's locals.
pub open spec fn st_of(
    mapped: Option<SocketAddr>,
    source: Option<SocketAddr>,
    changed: Option<SocketAddr>,
    reflected: Option<SocketAddr>,
    integrity: Option<Seq<u8>>,
) -> AsmState {
    AsmState { mapped, source, changed, reflected, integrity }
}

/// The view of an optional byte vector.
pub open spec fn opt_bytes_view(o: Option<Vec<u8>>) -> Option<Seq<u8>> {
    match o {
        Some(h) => Some(h@),
        None => None,
    }
}

impl BindRequest {
    /// Serializes the present optional fields in declaration order.  The
    /// one way this can fail is a response address outside the IPv4 family;
    /// everything else about an encodable request is total.
    pub fn encode(&self) -> (r: Result<Vec<u8>, DecodeError>)
        requires
            bind_request_encodable(self@),
        ensures
            !bind_request_v6(self@) ==> (r matches Ok(v) && v@ == bind_request_bytes(self@)),
            bind_request_v6(self@) ==> r == Err::<Vec<u8>, DecodeError>(
                DecodeError::UnsupportedAddressFamily,
            ),
    {
        let mut buf: Vec<u8> = Vec::new();

        if let Some(a) = &self.response_address {
            Attribute::ResponseAddress(*a).encode(&mut buf)?;
        }
        if let Some(c) = &self.change_request {
            Attribute::ChangeRequest(*c).encode(&mut buf)?;
        }
        if let Some(u) = &self.username {
            let copied = slice_to_vec(u.as_slice());
            Attribute::Username(copied).encode(&mut buf)?;
        }
        proof {
            assert(buf@ =~= bind_request_bytes(self@));
        }
        Ok(buf)
    }
}

impl StunCodec {
    pub fn new() -> StunCodec {
        StunCodec {  }
    }

    /// Assembles a binding response from the attribute stream that follows
    /// the header: addresses and the hash by first occurrence, unknown
    /// optional attributes skipped, then the integrity check and the
    /// mandatory-attribute check.
    pub fn read_binding_response(msg: &[u8]) -> (r: Result<BindResponse, DecodeError>)
        requires
            msg@.len() >= 20,
        ensures
            r == binding_response_spec(msg@),
    {
        let mut pos: usize = 20;
        let mut mapped: Option<SocketAddr> = None;
        let mut source: Option<SocketAddr> = None;
        let mut changed: Option<SocketAddr> = None;
        let mut reflected: Option<SocketAddr> = None;
        let mut integrity: Option<Vec<u8>> = None;

        loop
            invariant
                20 <= pos <= msg@.len(),
                integrity matches Some(h) ==> h@.len() == 20 && msg@.len() >= 44,
                assemble(msg@, 20, init_state()) == assemble(
                    msg@,
                    pos as int,
                    st_of(mapped, source, changed, reflected, opt_bytes_view(integrity)),
                ),
            ensures
                assemble(msg@, 20, init_state()) == Ok::<AsmState, DecodeError>(
                    st_of(mapped, source, changed, reflected, opt_bytes_view(integrity)),
                ),
                integrity matches Some(h) ==> h@.len() == 20 && msg@.len() >= 44,
            decreases msg@.len() - pos,
        {
            proof {
                lemma_parse_attr_advances(msg@, pos as int);
            }
            match Attribute::read(msg, pos) {
                Err(e) => {
                    return Err(e);
                },
                Ok(None) => {
                    break;
                },
                Ok(Some((attr, np))) => {
                    match attr {
                        Attribute::MappedAddress(x) => {
                            if mapped.is_none() {
                                mapped = Some(x);
                            }
                            pos = np;
                        },
                        Attribute::SourceAddress(x) => {
                            if source.is_none() {
                                source = Some(x);
                            }
                            pos = np;
                        },
                        Attribute::ChangedAddress(x) => {
                            if changed.is_none() {
                                changed = Some(x);
                            }
                            pos = np;
                        },
                        Attribute::ReflectedFrom(x) => {
                            if reflected.is_none() {
                                reflected = Some(x);
                            }
                            pos = np;
                        },
                        Attribute::MessageIntegrity(h) => {
                            if integrity.is_none() {
                                integrity = Some(h);
                            }
                            pos = np;
                        },
                        Attribute::UnknownOptional => {
                            pos = np;
                        },
                        _ => {
                            break;
                        },
                    }
                },
            }
        }

        if let Some(expected) = &integrity {
            let prefix = slice_subrange(msg, 0, msg.len() - 24);
            let actual = sha1(prefix);
            if !bytes_equal_ct(actual.as_slice(), expected.as_slice()) {
                return Err(DecodeError::IntegrityViolation);
            }
        }

        let mapped_address = match mapped {
            Some(a) => a,
            None => {
                return Err(DecodeError::MissingMandatoryAttribute(MandatoryField::MappedAddress));
            },
        };
        let source_address = match source {
            Some(a) => a,
            None => {
                return Err(DecodeError::MissingMandatoryAttribute(MandatoryField::SourceAddress));
            },
        };
        let changed_address = match changed {
            Some(a) => a,
            None => {
                return Err(DecodeError::MissingMandatoryAttribute(MandatoryField::ChangedAddress));
            },
        };
        Ok(BindResponse { mapped_address, source_address, changed_address, reflected_from: reflected })
    }

    /// Decodes one inbound datagram into its correlator (the second
    /// transaction half) and the typed message.  The peer endpoint plays no
    /// part in decoding; the transport passes it along.
    pub fn decode(&mut self, _peer: &SocketAddr, msg: &[u8]) -> (r: Result<
        (u64, Response),
        DecodeError,
    >)
        ensures
            r == decode_spec(msg@),
    {
        let n = msg.len();
        if n < 20 {
            return Err(DecodeError::Truncated);
        }
        let msg_type = read_u16(msg, 0);
        let trans_id1 = read_u64(msg, 4);
        let trans_id2 = read_u64(msg, 12);

        if trans_id1 != 0 {
            return Err(DecodeError::MalformedTransactionId);
        }

        if msg_type == BINDING_RESPONSE {
            match Self::read_binding_response(msg) {
                Ok(resp) => Ok((trans_id2, Response::Bind(resp))),
                Err(e) => Err(e),
            }
        } else if msg_type == BINDING_ERROR || msg_type == SHARED_SECRET_RESPONSE || msg_type
            == SHARED_SECRET_ERROR {
            Err(DecodeError::UnsupportedMessageType)
        } else {
            Err(DecodeError::UnknownMessageType)
        }
    }

    /// Frames an outbound request: type code, body length, the zero
    /// reserved transaction half, the correlator, then the encoded
    /// attributes.  Returns the destination endpoint so the transport knows
    /// where to send the bytes.  Encoding is total over what the caller is
    /// required to hand in; it cannot fail at run time.
    pub fn encode(&mut self, msg: (u64, SocketAddr, Request), buf: &mut Vec<u8>) -> (dst:
        SocketAddr)
        requires
            msg.2 matches Request::Bind(b) && bind_request_encodable(b@) && !bind_request_v6(b@)
                && bind_request_bytes(b@).len() <= 0xffff,
        ensures
            msg.2 matches Request::Bind(b) ==> final(buf)@ == old(buf)@ + message_bytes(
                BINDING_REQUEST,
                msg.0,
                bind_request_bytes(b@),
            ),
            dst == msg.1,
    {
        let (typ, mut m): (u16, Vec<u8>) = match &msg.2 {
            Request::Bind(bind) => (
                BINDING_REQUEST,
                match bind.encode() {
                    Ok(v) => v,
                    Err(_) => unreached(),
                },
            ),
            Request::SharedSecret => unreached(),
        };

        push_u16(buf, typ);
        push_u16(buf, m.len() as u16);
        push_u64(buf, 0);
        push_u64(buf, msg.0);
        buf.append(&mut m);
        proof {
            assert(buf@ =~= old(buf)@ + message_bytes(
                BINDING_REQUEST,
                msg.0,
                bind_request_bytes((msg.2->Bind_0)@),
            ));
        }
        msg.1
    }
}

/// Round-trip: the attribute stream that an encodable binding request
/// without a username writes reads back as exactly the attributes of its
/// present fields, in order, with the same values.  (A username cannot come
/// back: its type code sits below the mandatory boundary and the response
/// reader does not know it.)
#[verifier::rlimit(100)]
pub proof fn lemma_bind_request_round_trip(r: BindRequestV)
    requires
        r.response_address matches Some(a) ==> a is V4,
        r.username is None,
    ensures
        parse_all_attrs(bind_request_bytes(r), 0) == Ok::<Seq<AttrV>, DecodeError>(
            request_attrs(r),
        ),
{
    let s = bind_request_bytes(r);
    match (r.response_address, r.change_request) {
        (None, None) => {
            assert(s.len() == 0);
            assert(request_attrs(r) =~= Seq::<AttrV>::empty());
        },
        (Some(a), None) => {
            let av = AttrV::ResponseAddress(a);
            let t = attr_tlv(av);
            assert(s =~= t);
            assert(s.subrange(0, t.len() as int) =~= t);
            lemma_parse_attr_tlv(s, 0, av);
            assert(parse_all_attrs(s, t.len() as int) == Ok::<Seq<AttrV>, DecodeError>(
                Seq::empty(),
            ));
            assert(request_attrs(r) =~= seq![av]);
            assert(seq![av] + Seq::<AttrV>::empty() =~= seq![av]);
        },
        (None, Some(c)) => {
            let av = AttrV::ChangeRequest(c);
            let t = attr_tlv(av);
            assert(s =~= t);
            assert(s.subrange(0, t.len() as int) =~= t);
            lemma_parse_attr_tlv(s, 0, av);
            assert(parse_all_attrs(s, t.len() as int) == Ok::<Seq<AttrV>, DecodeError>(
                Seq::empty(),
            ));
            assert(request_attrs(r) =~= seq![av]);
            assert(seq![av] + Seq::<AttrV>::empty() =~= seq![av]);
        },
        (Some(a), Some(c)) => {
            let av1 = AttrV::ResponseAddress(a);
            let av2 = AttrV::ChangeRequest(c);
            let t1 = attr_tlv(av1);
            let t2 = attr_tlv(av2);
            assert(t1.len() == 12 && t2.len() == 8);
            assert(s =~= t1 + t2);
            assert(s.subrange(0, 12) =~= t1);
            assert(s.subrange(12, 20) =~= t2);
            lemma_parse_attr_tlv(s, 0, av1);
            lemma_parse_attr_tlv(s, 12, av2);
            assert(parse_all_attrs(s, 20) == Ok::<Seq<AttrV>, DecodeError>(Seq::empty()));
            assert(parse_all_attrs(s, 12) == Ok::<Seq<AttrV>, DecodeError>(
                seq![av2] + Seq::<AttrV>::empty(),
            ));
            assert(seq![av2] + Seq::<AttrV>::empty() =~= seq![av2]);
            assert(parse_all_attrs(s, 0) == Ok::<Seq<AttrV>, DecodeError>(seq![av1] + seq![av2]));
            assert(request_attrs(r) =~= seq![av1] + seq![av2]);
        },
    }
}

/// The half of the round trip that cannot hold: with a username present,
/// reading back the encoded stream fails with `UnknownMandatoryAttribute`
/// the moment the reader reaches the username attribute, whose type code it
/// does not know (`lemma_username_attr_unreadable`).
#[verifier::rlimit(100)]
pub proof fn lemma_bind_request_username_fails(r: BindRequestV)
    requires
        r.response_address matches Some(a) ==> a is V4,
        r.username matches Some(u) && pad4(u.len() as int) <= 0xffff,
    ensures
        parse_all_attrs(bind_request_bytes(r), 0) == Err::<Seq<AttrV>, DecodeError>(
            DecodeError::UnknownMandatoryAttribute,
        ),
{
    let s = bind_request_bytes(r);
    let u = r.username->Some_0;
    let t3 = attr_tlv(AttrV::Username(u));
    let fail = Err::<Seq<AttrV>, DecodeError>(DecodeError::UnknownMandatoryAttribute);
    match (r.response_address, r.change_request) {
        (None, None) => {
            assert(s =~= t3);
            assert(s.subrange(0, t3.len() as int) =~= t3);
            lemma_username_attr_unreadable(s, 0, u);
        },
        (Some(a), None) => {
            let av1 = AttrV::ResponseAddress(a);
            let t1 = attr_tlv(av1);
            assert(t1.len() == 12);
            assert(s =~= t1 + t3);
            assert(s.subrange(0, 12) =~= t1);
            assert(s.subrange(12, 12 + t3.len() as int) =~= t3);
            lemma_parse_attr_tlv(s, 0, av1);
            lemma_username_attr_unreadable(s, 12, u);
            assert(parse_all_attrs(s, 12) == fail);
        },
        (None, Some(c)) => {
            let av2 = AttrV::ChangeRequest(c);
            let t2 = attr_tlv(av2);
            assert(t2.len() == 8);
            assert(s =~= t2 + t3);
            assert(s.subrange(0, 8) =~= t2);
            assert(s.subrange(8, 8 + t3.len() as int) =~= t3);
            lemma_parse_attr_tlv(s, 0, av2);
            lemma_username_attr_unreadable(s, 8, u);
            assert(parse_all_attrs(s, 8) == fail);
        },
        (Some(a), Some(c)) => {
            let av1 = AttrV::ResponseAddress(a);
            let av2 = AttrV::ChangeRequest(c);
            let t1 = attr_tlv(av1);
            let t2 = attr_tlv(av2);
            assert(t1.len() == 12 && t2.len() == 8);
            assert(s =~= t1 + t2 + t3);
            assert(s.subrange(0, 12) =~= t1);
            assert(s.subrange(12, 20) =~= t2);
            assert(s.subrange(20, 20 + t3.len() as int) =~= t3);
            lemma_parse_attr_tlv(s, 0, av1);
            lemma_parse_attr_tlv(s, 12, av2);
            lemma_username_attr_unreadable(s, 20, u);
            assert(parse_all_attrs(s, 20) == fail);
            assert(parse_all_attrs(s, 12) == fail);
        },
    }
}

} // verus!
