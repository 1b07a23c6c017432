//! Framed wire messages exchanged between a client and a cluster member.
//!
//! Every message travels as one frame: an 8-byte big-endian body length
//! followed by the body. Three bodies exist: a connection preamble carrying
//! the 128-bit client identity, a proposal request carrying the opaque
//! command payload, and a proposal response that is one of `Success`,
//! `UnknownLeader` or `NotLeader(address)`. Each encoder's contract pins the
//! produced bytes exactly, and each decoder's contract pins, for every byte
//! sequence, whether it is accepted and what it decodes to.

use vstd::prelude::*;

verus! {

/// Identity tag of the client variant of a connection preamble body.
pub const TAG_IDENTITY_CLIENT: u8 = 1;

/// Tag of a proposal request body.
pub const TAG_REQUEST_PROPOSAL: u8 = 1;

/// Tag of a `Success` proposal response body.
pub const TAG_RESPONSE_SUCCESS: u8 = 1;

/// Tag of an `UnknownLeader` proposal response body.
pub const TAG_RESPONSE_UNKNOWN_LEADER: u8 = 2;

/// Tag of a `NotLeader` proposal response body.
pub const TAG_RESPONSE_NOT_LEADER: u8 = 3;

/// The globally unique identity a client mints at construction and sends in
/// every connection preamble.
#[derive(Clone, Copy, Debug, PartialEq, Eq, Structural)]
pub struct ClientId(pub u128);

/// The network address of one cluster member: an IPv4 address and a port.
#[derive(Clone, Copy, Debug, PartialEq, Eq, Structural)]
pub struct Address {
    pub ip0: u8,
    pub ip1: u8,
    pub ip2: u8,
    pub ip3: u8,
    pub port: u16,
}

/// The three outcomes a server may report for one proposal request.
#[derive(Clone, Copy, Debug, PartialEq, Eq, Structural)]
pub enum ProposalResponse {
    /// The proposal has been durably committed.
    Success,
    /// The contacted server does not currently know who the leader is.
    UnknownLeader,
    /// The contacted server redirects the client to the leader's address.
    NotLeader(Address),
}

/// The eight big-endian bytes of a 64-bit value.
pub open spec fn u64_be_bytes(x: u64) -> Seq<u8> {
    seq![
        ((x >> 56) & 0xff) as u8,
        ((x >> 48) & 0xff) as u8,
        ((x >> 40) & 0xff) as u8,
        ((x >> 32) & 0xff) as u8,
        ((x >> 24) & 0xff) as u8,
        ((x >> 16) & 0xff) as u8,
        ((x >> 8) & 0xff) as u8,
        (x & 0xff) as u8,
    ]
}

/// The sixteen big-endian bytes of a 128-bit value.
pub open spec fn u128_be_bytes(x: u128) -> Seq<u8> {
    seq![
        ((x >> 120) & 0xff) as u8,
        ((x >> 112) & 0xff) as u8,
        ((x >> 104) & 0xff) as u8,
        ((x >> 96) & 0xff) as u8,
        ((x >> 88) & 0xff) as u8,
        ((x >> 80) & 0xff) as u8,
        ((x >> 72) & 0xff) as u8,
        ((x >> 64) & 0xff) as u8,
        ((x >> 56) & 0xff) as u8,
        ((x >> 48) & 0xff) as u8,
        ((x >> 40) & 0xff) as u8,
        ((x >> 32) & 0xff) as u8,
        ((x >> 24) & 0xff) as u8,
        ((x >> 16) & 0xff) as u8,
        ((x >> 8) & 0xff) as u8,
        (x & 0xff) as u8,
    ]
}

/// The 64-bit value read big-endian from the first eight bytes of `s`.
pub open spec fn u64_from_be(s: Seq<u8>) -> u64
    recommends
        s.len() >= 8,
{
    ((s[0] as u64) << 56) | ((s[1] as u64) << 48) | ((s[2] as u64) << 40) | ((s[3] as u64) << 32)
        | ((s[4] as u64) << 24) | ((s[5] as u64) << 16) | ((s[6] as u64) << 8) | (s[7] as u64)
}

/// The 128-bit value read big-endian from the sixteen bytes of `s` starting
/// at index `at`.
pub open spec fn u128_from_be(s: Seq<u8>, at: int) -> u128
    recommends
        0 <= at,
        at + 16 <= s.len(),
{
    ((s[at] as u128) << 120) | ((s[at + 1] as u128) << 112) | ((s[at + 2] as u128) << 104)
        | ((s[at + 3] as u128) << 96) | ((s[at + 4] as u128) << 88) | ((s[at + 5] as u128) << 80)
        | ((s[at + 6] as u128) << 72) | ((s[at + 7] as u128) << 64) | ((s[at + 8] as u128) << 56)
        | ((s[at + 9] as u128) << 48) | ((s[at + 10] as u128) << 40) | ((s[at + 11] as u128) << 32)
        | ((s[at + 12] as u128) << 24) | ((s[at + 13] as u128) << 16) | ((s[at + 14] as u128) << 8)
        | (s[at + 15] as u128)
}

/// A whole frame: the big-endian body length, then the body.
pub open spec fn spec_frame(body: Seq<u8>) -> Seq<u8> {
    u64_be_bytes(body.len() as u64) + body
}

/// The body of a connection preamble carrying a client identity.
pub open spec fn spec_preamble_body(bits: u128) -> Seq<u8> {
    seq![TAG_IDENTITY_CLIENT] + u128_be_bytes(bits)
}

/// The full preamble frame for a client identity.
pub open spec fn spec_preamble_frame(bits: u128) -> Seq<u8> {
    spec_frame(spec_preamble_body(bits))
}

/// The body of a proposal request carrying the opaque payload.
pub open spec fn spec_request_body(entry: Seq<u8>) -> Seq<u8> {
    seq![TAG_REQUEST_PROPOSAL] + entry
}

/// The full proposal request frame for a payload.
pub open spec fn spec_request_frame(entry: Seq<u8>) -> Seq<u8> {
    spec_frame(spec_request_body(entry))
}

/// The body of a proposal response.
pub open spec fn spec_response_body(r: ProposalResponse) -> Seq<u8> {
    match r {
        ProposalResponse::Success => seq![TAG_RESPONSE_SUCCESS],
        ProposalResponse::UnknownLeader => seq![TAG_RESPONSE_UNKNOWN_LEADER],
        ProposalResponse::NotLeader(a) => seq![
            TAG_RESPONSE_NOT_LEADER,
            a.ip0,
            a.ip1,
            a.ip2,
            a.ip3,
            ((a.port >> 8) & 0xff) as u8,
            (a.port & 0xff) as u8,
        ],
    }
}

/// The full proposal response frame.
pub open spec fn spec_response_frame(r: ProposalResponse) -> Seq<u8> {
    spec_frame(spec_response_body(r))
}

/// What a frame body decodes to as a proposal response: the three well-formed
/// shapes map to their response, every other byte sequence is malformed.
pub open spec fn spec_decode_response(s: Seq<u8>) -> Option<ProposalResponse> {
    if s.len() == 1 && s[0] == TAG_RESPONSE_SUCCESS {
        Some(ProposalResponse::Success)
    } else if s.len() == 1 && s[0] == TAG_RESPONSE_UNKNOWN_LEADER {
        Some(ProposalResponse::UnknownLeader)
    } else if s.len() == 7 && s[0] == TAG_RESPONSE_NOT_LEADER {
        Some(
            ProposalResponse::NotLeader(
                Address {
                    ip0: s[1],
                    ip1: s[2],
                    ip2: s[3],
                    ip3: s[4],
                    port: ((s[5] as u16) << 8) | (s[6] as u16),
                },
            ),
        )
    } else {
        None
    }
}

/// What a frame body decodes to as a connection preamble.
pub open spec fn spec_decode_preamble(s: Seq<u8>) -> Option<ClientId> {
    if s.len() == 17 && s[0] == TAG_IDENTITY_CLIENT {
        Some(ClientId(u128_from_be(s, 1)))
    } else {
        None
    }
}

/// What a frame body decodes to as a proposal request.
pub open spec fn spec_decode_request(s: Seq<u8>) -> Option<Seq<u8>> {
    if s.len() >= 1 && s[0] == TAG_REQUEST_PROPOSAL {
        Some(s.subrange(1, s.len() as int))
    } else {
        None
    }
}

proof fn lemma_low_byte_u16(y: u16)
    ensures
        y & 0xff < 256,
{
    assert(y & 0xff < 256) by (bit_vector);
}

proof fn lemma_low_byte_u64(y: u64)
    ensures
        y & 0xff < 256,
{
    assert(y & 0xff < 256) by (bit_vector);
}

proof fn lemma_low_byte_u128(y: u128)
    ensures
        y & 0xff < 256,
{
    assert(y & 0xff < 256) by (bit_vector);
}

fn push_u64_be(out: &mut Vec<u8>, x: u64)
    ensures
        final(out)@ == old(out)@ + u64_be_bytes(x),
{
    proof {
        lemma_low_byte_u64(x >> 56);
        lemma_low_byte_u64(x >> 48);
        lemma_low_byte_u64(x >> 40);
        lemma_low_byte_u64(x >> 32);
        lemma_low_byte_u64(x >> 24);
        lemma_low_byte_u64(x >> 16);
        lemma_low_byte_u64(x >> 8);
        lemma_low_byte_u64(x);
    }
    out.push(((x >> 56) & 0xff) as u8);
    out.push(((x >> 48) & 0xff) as u8);
    out.push(((x >> 40) & 0xff) as u8);
    out.push(((x >> 32) & 0xff) as u8);
    out.push(((x >> 24) & 0xff) as u8);
    out.push(((x >> 16) & 0xff) as u8);
    out.push(((x >> 8) & 0xff) as u8);
    out.push((x & 0xff) as u8);
    proof {
        assert(out@ =~= old(out)@ + u64_be_bytes(x));
    }
}

fn push_u128_be(out: &mut Vec<u8>, x: u128)
    ensures
        final(out)@ == old(out)@ + u128_be_bytes(x),
{
    proof {
        lemma_low_byte_u128(x >> 120);
        lemma_low_byte_u128(x >> 112);
        lemma_low_byte_u128(x >> 104);
        lemma_low_byte_u128(x >> 96);
        lemma_low_byte_u128(x >> 88);
        lemma_low_byte_u128(x >> 80);
        lemma_low_byte_u128(x >> 72);
        lemma_low_byte_u128(x >> 64);
        lemma_low_byte_u128(x >> 56);
        lemma_low_byte_u128(x >> 48);
        lemma_low_byte_u128(x >> 40);
        lemma_low_byte_u128(x >> 32);
        lemma_low_byte_u128(x >> 24);
        lemma_low_byte_u128(x >> 16);
        lemma_low_byte_u128(x >> 8);
        lemma_low_byte_u128(x);
    }
    out.push(((x >> 120) & 0xff) as u8);
    out.push(((x >> 112) & 0xff) as u8);
    out.push(((x >> 104) & 0xff) as u8);
    out.push(((x >> 96) & 0xff) as u8);
    out.push(((x >> 88) & 0xff) as u8);
    out.push(((x >> 80) & 0xff) as u8);
    out.push(((x >> 72) & 0xff) as u8);
    out.push(((x >> 64) & 0xff) as u8);
    out.push(((x >> 56) & 0xff) as u8);
    out.push(((x >> 48) & 0xff) as u8);
    out.push(((x >> 40) & 0xff) as u8);
    out.push(((x >> 32) & 0xff) as u8);
    out.push(((x >> 24) & 0xff) as u8);
    out.push(((x >> 16) & 0xff) as u8);
    out.push(((x >> 8) & 0xff) as u8);
    out.push((x & 0xff) as u8);
    proof {
        assert(out@ =~= old(out)@ + u128_be_bytes(x));
    }
}

/// Encode the preamble frame that identifies this client to a server.
pub fn encode_preamble(id: &ClientId) -> (r: Vec<u8>)
    ensures
        r@ == spec_preamble_frame(id.0),
{
    let mut out: Vec<u8> = Vec::new();
    push_u64_be(&mut out, 17);
    out.push(TAG_IDENTITY_CLIENT);
    push_u128_be(&mut out, id.0);
    proof {
        assert(out@ =~= spec_preamble_frame(id.0));
    }
    out
}

/// Encode the request frame that carries one opaque proposal payload.
pub fn encode_proposal_request(entry: &Vec<u8>) -> (r: Vec<u8>)
    requires
        entry@.len() < usize::MAX,
    ensures
        r@ == spec_request_frame(entry@),
{
    let mut out: Vec<u8> = Vec::new();
    let body_len: u64 = (entry.len() as u64) + 1;
    push_u64_be(&mut out, body_len);
    out.push(TAG_REQUEST_PROPOSAL);
    let mut i: usize = 0;
    while i < entry.len()
        invariant
            i <= entry@.len(),
            entry@.len() < usize::MAX,
            out@ == u64_be_bytes((entry@.len() + 1) as u64) + seq![TAG_REQUEST_PROPOSAL]
                + entry@.take(i as int),
        decreases entry@.len() - i,
    {
        out.push(entry[i]);
        i = i + 1;
        proof {
            assert(entry@.take(i as int) =~= entry@.take(i as int - 1) + seq![entry@[i - 1]]);
        }
    }
    proof {
        assert(entry@.take(entry@.len() as int) =~= entry@);
        assert(out@ =~= spec_request_frame(entry@));
    }
    out
}

/// Encode the response frame a server sends for one proposal request.
pub fn encode_client_response(r: &ProposalResponse) -> (out: Vec<u8>)
    ensures
        out@ == spec_response_frame(*r),
{
    let mut out: Vec<u8> = Vec::new();
    match r {
        ProposalResponse::Success => {
            push_u64_be(&mut out, 1);
            out.push(TAG_RESPONSE_SUCCESS);
        },
        ProposalResponse::UnknownLeader => {
            push_u64_be(&mut out, 1);
            out.push(TAG_RESPONSE_UNKNOWN_LEADER);
        },
        ProposalResponse::NotLeader(a) => {
            proof {
                lemma_low_byte_u16(a.port >> 8);
                lemma_low_byte_u16(a.port);
            }
            push_u64_be(&mut out, 7);
            out.push(TAG_RESPONSE_NOT_LEADER);
            out.push(a.ip0);
            out.push(a.ip1);
            out.push(a.ip2);
            out.push(a.ip3);
            out.push(((a.port >> 8) & 0xff) as u8);
            out.push((a.port & 0xff) as u8);
        },
    }
    proof {
        assert(out@ =~= spec_response_frame(*r));
    }
    out
}

/// Read a frame header: the body length of the frame it opens, or `None`
/// where the header is not exactly eight bytes.
pub fn decode_frame_len(header: &Vec<u8>) -> (r: Option<u64>)
    ensures
        r == if header@.len() == 8 {
            Some(u64_from_be(header@))
        } else {
            None::<u64>
        },
{
    if header.len() == 8 {
        Some(
            ((header[0] as u64) << 56) | ((header[1] as u64) << 48) | ((header[2] as u64) << 40)
                | ((header[3] as u64) << 32) | ((header[4] as u64) << 24)
                | ((header[5] as u64) << 16) | ((header[6] as u64) << 8) | (header[7] as u64),
        )
    } else {
        None
    }
}

/// Decode a frame body as a proposal response; `None` is a malformed body.
pub fn decode_client_response(body: &Vec<u8>) -> (r: Option<ProposalResponse>)
    ensures
        r == spec_decode_response(body@),
{
    if body.len() == 1 && body[0] == TAG_RESPONSE_SUCCESS {
        Some(ProposalResponse::Success)
    } else if body.len() == 1 && body[0] == TAG_RESPONSE_UNKNOWN_LEADER {
        Some(ProposalResponse::UnknownLeader)
    } else if body.len() == 7 && body[0] == TAG_RESPONSE_NOT_LEADER {
        Some(
            ProposalResponse::NotLeader(
                Address {
                    ip0: body[1],
                    ip1: body[2],
                    ip2: body[3],
                    ip3: body[4],
                    port: ((body[5] as u16) << 8) | (body[6] as u16),
                },
            ),
        )
    } else {
        None
    }
}

/// Decode a frame body as a connection preamble; `None` is a malformed body.
pub fn decode_preamble(body: &Vec<u8>) -> (r: Option<ClientId>)
    ensures
        r == spec_decode_preamble(body@),
{
    if body.len() == 17 && body[0] == TAG_IDENTITY_CLIENT {
        Some(
            ClientId(
                ((body[1] as u128) << 120) | ((body[2] as u128) << 112) | ((body[3] as u128)
                    << 104) | ((body[4] as u128) << 96) | ((body[5] as u128) << 88) | ((
                body[6] as u128) << 80) | ((body[7] as u128) << 72) | ((body[8] as u128) << 64) | ((
                body[9] as u128) << 56) | ((body[10] as u128) << 48) | ((body[11] as u128) << 40)
                    | ((body[12] as u128) << 32) | ((body[13] as u128) << 24) | ((body[14] as u128)
                    << 16) | ((body[15] as u128) << 8) | (body[16] as u128),
            ),
        )
    } else {
        None
    }
}

/// Decode a frame body as a proposal request; `None` is a malformed body.
pub fn decode_proposal_request(body: &Vec<u8>) -> (r: Option<Vec<u8>>)
    ensures
        match r {
            Some(entry) => spec_decode_request(body@) == Some(entry@),
            None => spec_decode_request(body@) is None,
        },
{
    if body.len() >= 1 && body[0] == TAG_REQUEST_PROPOSAL {
        let mut entry: Vec<u8> = Vec::new();
        let mut i: usize = 1;
        while i < body.len()
            invariant
                1 <= i <= body@.len(),
                entry@ == body@.subrange(1, i as int),
            decreases body@.len() - i,
        {
            entry.push(body[i]);
            i = i + 1;
            proof {
                assert(body@.subrange(1, i as int) =~= body@.subrange(1, i as int - 1)
                    + seq![body@[i - 1]]);
            }
        }
        Some(entry)
    } else {
        None
    }
}

/// Law: the header of every frame carries exactly the length of its body.
pub proof fn lemma_frame_header(body: Seq<u8>)
    ensures
        spec_frame(body).len() == 8 + body.len(),
        u64_from_be(spec_frame(body)) == body.len() as u64,
{
    let x = body.len() as u64;
    assert(((((x >> 56) & 0xff) as u8 as u64) << 56) | ((((x >> 48) & 0xff) as u8 as u64) << 48)
        | ((((x >> 40) & 0xff) as u8 as u64) << 40) | ((((x >> 32) & 0xff) as u8 as u64) << 32)
        | ((((x >> 24) & 0xff) as u8 as u64) << 24) | ((((x >> 16) & 0xff) as u8 as u64) << 16)
        | ((((x >> 8) & 0xff) as u8 as u64) << 8) | ((x & 0xff) as u8 as u64) == x)
        by (bit_vector);
}

/// Law: every proposal response body decodes back to the response it encodes.
pub proof fn lemma_response_round_trip(r: ProposalResponse)
    ensures
        spec_decode_response(spec_response_body(r)) == Some(r),
{
    match r {
        ProposalResponse::Success => {},
        ProposalResponse::UnknownLeader => {},
        ProposalResponse::NotLeader(a) => {
            let p = a.port;
            assert(((((p >> 8) & 0xff) as u8 as u16) << 8) | ((p & 0xff) as u8 as u16) == p)
                by (bit_vector);
        },
    }
}

/// Law: every proposal request body decodes back to the payload it encodes.
pub proof fn lemma_request_round_trip(entry: Seq<u8>)
    ensures
        spec_decode_request(spec_request_body(entry)) == Some(entry),
{
    assert(spec_request_body(entry).subrange(1, spec_request_body(entry).len() as int)
        =~= entry);
}

/// Law: every preamble body decodes back to the identity it encodes.
pub proof fn lemma_preamble_round_trip(id: ClientId)
    ensures
        spec_decode_preamble(spec_preamble_body(id.0)) == Some(id),
{
    let x = id.0;
    assert(((((x >> 120) & 0xff) as u8 as u128) << 120) | ((((x >> 112) & 0xff) as u8 as u128)
        << 112) | ((((x >> 104) & 0xff) as u8 as u128) << 104) | ((((x >> 96) & 0xff) as u8 as u128)
        << 96) | ((((x >> 88) & 0xff) as u8 as u128) << 88) | ((((x >> 80) & 0xff) as u8 as u128)
        << 80) | ((((x >> 72) & 0xff) as u8 as u128) << 72) | ((((x >> 64) & 0xff) as u8 as u128)
        << 64) | ((((x >> 56) & 0xff) as u8 as u128) << 56) | ((((x >> 48) & 0xff) as u8 as u128)
        << 48) | ((((x >> 40) & 0xff) as u8 as u128) << 40) | ((((x >> 32) & 0xff) as u8 as u128)
        << 32) | ((((x >> 24) & 0xff) as u8 as u128) << 24) | ((((x >> 16) & 0xff) as u8 as u128)
        << 16) | ((((x >> 8) & 0xff) as u8 as u128) << 8) | ((x & 0xff) as u8 as u128) == x)
        by (bit_vector);
}

} // verus!
