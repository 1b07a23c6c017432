//! The leader-discovery client: its state, and the per-call state machine
//! behind `propose`.
//!
//! The client holds a fixed candidate set of cluster addresses and at most
//! one retained connection believed to reach the current leader. A proposal
//! call walks the machine: acquire a connection (reuse the retained one, or
//! draw the next untried candidate), send the request, and interpret the
//! response — commit on `Success`, move to the next candidate on
//! `UnknownLeader`, follow the named address on `NotLeader`, and fail on a
//! malformed response. A failed connect or a failed read or write aborts the
//! call at once — by design the sweep advances to the next candidate only on
//! an `UnknownLeader` answer, never on a transport failure.
//!
//! The transport itself (opening a connection, writing a frame, reading one)
//! is the driver's job, outside this crate's concern: `propose_start` and
//! `propose_step` hand the driver an [`Action`], and the driver answers with
//! the [`Event`] the transport produced. The driver's obligations are: on
//! `Action::Connect(a)` open a fresh channel to `a` and write exactly one
//! preamble frame (`wire::encode_preamble`) on it before anything else; on
//! `Action::Send` write one request frame on the channel at hand and read one
//! response frame; a reused channel gets no second preamble. The whole
//! decision logic is here, verified: `spec_start` and `spec_step` say exactly
//! what every call does, and the executable functions are proven equal to
//! them.

use vstd::prelude::*;

use crate::wire::decode_client_response;
use crate::wire::spec_decode_response;
use crate::wire::Address;
use crate::wire::ClientId;
use crate::wire::ProposalResponse;

verus! {

/// Why a proposal call failed.
#[derive(Clone, Copy, Debug, PartialEq, Eq)]
pub enum ProposeError {
    /// Every untried candidate was contacted and none confirmed leadership.
    LeaderSearchExhausted,
    /// A transport connection to a candidate could not be established.
    ConnectError,
    /// Writing or reading an established connection failed.
    IoError,
    /// A response frame matched none of the expected response shapes.
    ProtocolError,
}

/// Where a proposal call stands between two driver interactions.
#[derive(Clone, Copy, Debug, PartialEq, Eq)]
pub enum Phase {
    /// A connect to `addr` was requested; awaiting its outcome.
    Connecting { addr: Address },
    /// A send on the connection to `addr` was requested; awaiting the
    /// response frame.
    Sending { addr: Address },
    /// The call is over; no further event is expected.
    Finished,
}

/// The per-call state of one `propose` invocation. It lives only for the
/// call: a new one is minted by `propose_start`, so no memory of tried
/// candidates outlasts the call.
#[derive(Clone, Copy, Debug, PartialEq, Eq)]
pub struct ProposeCall {
    /// How far the candidate cursor has moved: candidates below this index
    /// have been drawn in this call.
    pub next_idx: usize,
    /// The address of the retained connection this call began with, if any;
    /// it counts as already tried and is skipped by the cursor.
    pub used: Option<Address>,
    /// Where the call stands.
    pub phase: Phase,
}

/// What the transport driver must do next.
#[derive(Clone, Copy, Debug, PartialEq, Eq)]
pub enum Action {
    /// Open a fresh connection to this address and write one preamble frame
    /// on it, then report the outcome.
    Connect(Address),
    /// Write one request frame on the connection at hand, read one response
    /// frame, and report the outcome. No preamble is written.
    Send,
    /// The call is over with this result; drop the connection at hand unless
    /// the result is success.
    Finish(Result<(), ProposeError>),
}

/// What the transport reported back for the last action.
#[derive(Debug, PartialEq, Eq)]
pub enum Event {
    /// The requested connection is established and its preamble was written.
    ConnectOk,
    /// The requested connection could not be established.
    ConnectFailed,
    /// Writing or reading the connection at hand failed.
    IoFailed,
    /// One response frame was read; these are its body bytes.
    Frame(Vec<u8>),
}

/// The representation of a client connection to the cluster.
#[derive(Debug)]
pub struct Client {
    /// The identity of the client, unique in the cluster, sent in the
    /// preamble of every connection the client opens.
    pub id: ClientId,
    /// The candidate cluster members, free of duplicates, fixed after
    /// construction.
    pub cluster: Vec<Address>,
    /// The address of the retained connection believed to reach the current
    /// leader, or `None` after a disconnection or a failed call. The driver
    /// keeps the channel itself under the same lifecycle.
    pub leader: Option<Address>,
}

/// Which events a driver may answer with in a given phase: the outcome of a
/// connect while connecting, a frame or an I/O failure while sending, and
/// nothing once the call is finished.
pub open spec fn event_fits(p: Phase, ev: Event) -> bool {
    match p {
        Phase::Connecting { .. } => match ev {
            Event::ConnectOk => true,
            Event::ConnectFailed => true,
            Event::IoFailed => true,
            Event::Frame(_) => false,
        },
        Phase::Sending { .. } => match ev {
            Event::Frame(_) => true,
            Event::IoFailed => true,
            Event::ConnectOk => false,
            Event::ConnectFailed => false,
        },
        Phase::Finished => false,
    }
}

/// The candidate cursor: the next index to draw, skipping the one candidate
/// that equals the call's already-used address.
pub open spec fn spec_draw(cluster: Seq<Address>, at: int, used: Option<Address>) -> int {
    if at < cluster.len() && used == Some(cluster[at]) {
        at + 1
    } else {
        at
    }
}

/// A call state identical to `call` but finished.
pub open spec fn spec_finished(call: ProposeCall) -> ProposeCall {
    ProposeCall { next_idx: call.next_idx, used: call.used, phase: Phase::Finished }
}

/// What beginning a proposal call does: the new client state, the fresh call
/// state, and the first action. A retained connection is taken and reused
/// without a new preamble; otherwise the first candidate is contacted, and an
/// empty candidate set exhausts the search at once.
pub open spec fn spec_start(c: Client) -> (Client, ProposeCall, Action) {
    match c.leader {
        Some(a) => (
            Client { id: c.id, cluster: c.cluster, leader: None },
            ProposeCall { next_idx: 0, used: Some(a), phase: Phase::Sending { addr: a } },
            Action::Send,
        ),
        None => {
            if c.cluster@.len() > 0 {
                (
                    c,
                    ProposeCall {
                        next_idx: 1,
                        used: None,
                        phase: Phase::Connecting { addr: c.cluster@[0] },
                    },
                    Action::Connect(c.cluster@[0]),
                )
            } else {
                (
                    c,
                    ProposeCall { next_idx: 0, used: None, phase: Phase::Finished },
                    Action::Finish(Err(ProposeError::LeaderSearchExhausted)),
                )
            }
        },
    }
}

/// What one step of a proposal call does with the event the driver reported:
/// the new client state, the new call state, and the next action.
///
/// While connecting: an established connection moves to sending; a failed
/// connect ends the call with `ConnectError`; a failed preamble write ends it
/// with `IoError`. While sending: `Success` retains the connection's address
/// and ends the call successfully; `UnknownLeader` draws the next untried
/// candidate or, with none left, ends the call with `LeaderSearchExhausted`;
/// `NotLeader` connects to the named address without consuming a candidate; a
/// malformed frame ends the call with `ProtocolError`; an I/O failure ends it
/// with `IoError`. An event that does not fit the phase (`event_fits` is
/// false) never reaches a verified caller; those arms end the call with
/// `IoError` for totality.
pub open spec fn spec_step(c: Client, call: ProposeCall, ev: Event) -> (
    Client,
    ProposeCall,
    Action,
) {
    match call.phase {
        Phase::Connecting { addr } => match ev {
            Event::ConnectOk => (
                c,
                ProposeCall {
                    next_idx: call.next_idx,
                    used: call.used,
                    phase: Phase::Sending { addr },
                },
                Action::Send,
            ),
            Event::ConnectFailed => (
                c,
                spec_finished(call),
                Action::Finish(Err(ProposeError::ConnectError)),
            ),
            Event::IoFailed => (c, spec_finished(call), Action::Finish(Err(ProposeError::IoError))),
            Event::Frame(_) => (c, spec_finished(call), Action::Finish(
                Err(ProposeError::IoError),
            )),
        },
        Phase::Sending { addr } => match ev {
            Event::Frame(bytes) => match spec_decode_response(bytes@) {
                Some(ProposalResponse::Success) => (
                    Client { id: c.id, cluster: c.cluster, leader: Some(addr) },
                    spec_finished(call),
                    Action::Finish(Ok(())),
                ),
                Some(ProposalResponse::UnknownLeader) => {
                    let j = spec_draw(c.cluster@, call.next_idx as int, call.used);
                    if j < c.cluster@.len() {
                        (
                            c,
                            ProposeCall {
                                next_idx: (j + 1) as usize,
                                used: call.used,
                                phase: Phase::Connecting { addr: c.cluster@[j] },
                            },
                            Action::Connect(c.cluster@[j]),
                        )
                    } else {
                        (
                            c,
                            spec_finished(call),
                            Action::Finish(Err(ProposeError::LeaderSearchExhausted)),
                        )
                    }
                },
                Some(ProposalResponse::NotLeader(l)) => (
                    c,
                    ProposeCall {
                        next_idx: call.next_idx,
                        used: call.used,
                        phase: Phase::Connecting { addr: l },
                    },
                    Action::Connect(l),
                ),
                None => (
                    c,
                    spec_finished(call),
                    Action::Finish(Err(ProposeError::ProtocolError)),
                ),
            },
            Event::IoFailed => (c, spec_finished(call), Action::Finish(Err(ProposeError::IoError))),
            Event::ConnectOk => (c, spec_finished(call), Action::Finish(
                Err(ProposeError::IoError),
            )),
            Event::ConnectFailed => (c, spec_finished(call), Action::Finish(
                Err(ProposeError::IoError),
            )),
        },
        Phase::Finished => (c, call, Action::Finish(Err(ProposeError::IoError))),
    }
}

/// The candidates kept first-occurrence-first and free of duplicates.
pub open spec fn spec_dedup(s: Seq<Address>) -> Seq<Address>
    decreases s.len(),
{
    if s.len() == 0 {
        Seq::empty()
    } else {
        let rest = spec_dedup(s.drop_last());
        if rest.contains(s.last()) {
            rest
        } else {
            rest.push(s.last())
        }
    }
}

/// Law: dropping duplicate candidates keeps exactly the supplied membership.
pub proof fn lemma_dedup_contains(s: Seq<Address>, a: Address)
    ensures
        spec_dedup(s).contains(a) <==> s.contains(a),
    decreases s.len(),
{
    if s.len() == 0 {
        assert(!s.contains(a)) by {
            if s.contains(a) {
                let k = choose|k: int| 0 <= k < s.len() && s[k] == a;
            }
        }
        assert(!spec_dedup(s).contains(a)) by {
            if spec_dedup(s).contains(a) {
                let k = choose|k: int| 0 <= k < spec_dedup(s).len() && spec_dedup(s)[k] == a;
            }
        }
    } else {
        lemma_dedup_contains(s.drop_last(), a);
        let rest = spec_dedup(s.drop_last());
        let x = s.last();
        assert(s.contains(a) <==> s.drop_last().contains(a) || x == a) by {
            if s.contains(a) {
                let k = choose|k: int| 0 <= k < s.len() && s[k] == a;
                if k < s.len() - 1 {
                    assert(s.drop_last()[k] == a);
                    assert(s.drop_last().contains(a));
                }
            }
            if s.drop_last().contains(a) {
                let k = choose|k: int| 0 <= k < s.drop_last().len() && s.drop_last()[k] == a;
                assert(s[k] == a);
                assert(s.contains(a));
            }
            if x == a {
                assert(s[s.len() - 1] == a);
                assert(s.contains(a));
            }
        }
        if rest.contains(x) {
            // spec_dedup(s) is rest itself
        } else {
            let d = rest.push(x);
            assert(d.contains(a) <==> rest.contains(a) || x == a) by {
                if d.contains(a) {
                    let k = choose|k: int| 0 <= k < d.len() && d[k] == a;
                    if k < rest.len() {
                        assert(rest[k] == a);
                        assert(rest.contains(a));
                    }
                }
                if rest.contains(a) {
                    let k = choose|k: int| 0 <= k < rest.len() && rest[k] == a;
                    assert(d[k] == a);
                    assert(d.contains(a));
                }
                if x == a {
                    assert(d[d.len() - 1] == a);
                    assert(d.contains(a));
                }
            }
        }
    }
}

proof fn lemma_dedup_no_dup(s: Seq<Address>)
    ensures
        spec_dedup(s).no_duplicates(),
    decreases s.len(),
{
    if s.len() == 0 {
    } else {
        lemma_dedup_no_dup(s.drop_last());
        let rest = spec_dedup(s.drop_last());
        let x = s.last();
        if !rest.contains(x) {
            let d = rest.push(x);
            assert forall|i: int, j: int|
                0 <= i < d.len() && 0 <= j < d.len() && i != j implies d[i] != d[j] by {
                if i < rest.len() && j < rest.len() {
                    assert(rest[i] != rest[j]);
                } else if j == rest.len() && i < rest.len() {
                    if d[i] == x {
                        assert(0 <= i < rest.len() && rest[i] == x);
                        assert(rest.contains(x));
                    }
                } else if i == rest.len() && j < rest.len() {
                    if d[j] == x {
                        assert(0 <= j < rest.len() && rest[j] == x);
                        assert(rest.contains(x));
                    }
                }
            }
        }
    }
}

fn addr_in(v: &Vec<Address>, a: Address) -> (b: bool)
    ensures
        b == v@.contains(a),
{
    let mut i: usize = 0;
    while i < v.len()
        invariant
            i <= v@.len(),
            forall|k: int| 0 <= k < i ==> v@[k] != a,
        decreases v@.len() - i,
    {
        if v[i] == a {
            proof {
                assert(v@.contains(a));
            }
            return true;
        }
        i = i + 1;
    }
    proof {
        assert(!v@.contains(a)) by {
            if v@.contains(a) {
                let k = choose|k: int| 0 <= k < v@.len() && v@[k] == a;
                assert(v@[k] != a);
            }
        }
    }
    false
}

/// Relies on `uuid::Uuid::new_v4`, carried out through `Uuid::as_u128`: mints
/// a fresh version-4 identifier from the process's random source. Nothing is
/// promised of the value.
#[verifier::external_body]
fn fresh_id_bits() -> u128 {
    uuid::Uuid::new_v4().as_u128()
}

impl ClientId {
    /// Mint a fresh client identity.
    pub fn new() -> ClientId {
        ClientId(fresh_id_bits())
    }
}

impl Client {
    /// The client's invariant: the candidate set holds each address once.
    pub open spec fn wf(self) -> bool {
        self.cluster@.no_duplicates()
    }

    /// Creates a new client. Mints a fresh identity, keeps each supplied
    /// candidate address once (first occurrence first), and starts with no
    /// retained connection.
    pub fn new(cluster: Vec<Address>) -> (c: Client)
        ensures
            c.leader is None,
            c.cluster@ == spec_dedup(cluster@),
            forall|a: Address| c.cluster@.contains(a) <==> cluster@.contains(a),
            c.wf(),
    {
        let mut dedup: Vec<Address> = Vec::new();
        let mut i: usize = 0;
        while i < cluster.len()
            invariant
                i <= cluster@.len(),
                dedup@ == spec_dedup(cluster@.take(i as int)),
            decreases cluster@.len() - i,
        {
            let a = cluster[i];
            let present = addr_in(&dedup, a);
            i = i + 1;
            proof {
                assert(cluster@.take(i as int).drop_last() =~= cluster@.take(i as int - 1));
                assert(cluster@.take(i as int).last() == cluster@[i - 1]);
            }
            if !present {
                dedup.push(a);
            }
        }
        proof {
            assert(cluster@.take(cluster@.len() as int) =~= cluster@);
            lemma_dedup_no_dup(cluster@);
            assert forall|a: Address| spec_dedup(cluster@).contains(a) <==> cluster@.contains(
                a,
            ) by {
                lemma_dedup_contains(cluster@, a);
            }
        }
        Client { id: ClientId::new(), cluster: dedup, leader: None }
    }

    /// Whether a connection is retained from an earlier successful call.
    pub fn has_leader_connection(&self) -> (b: bool)
        ensures
            b == (self.leader is Some),
    {
        self.leader.is_some()
    }

    /// Begin a proposal call: take the retained connection if one is present,
    /// else contact the first candidate. Returns the fresh call state and the
    /// first action for the driver, exactly as `spec_start` says.
    pub fn propose_start(&mut self) -> (r: (ProposeCall, Action))
        ensures
            ({
                let t = spec_start(*old(self));
                &&& *final(self) == t.0
                &&& r.0 == t.1
                &&& r.1 == t.2
            }),
    {
        match self.leader {
            Some(a) => {
                self.leader = None;
                (
                    ProposeCall { next_idx: 0, used: Some(a), phase: Phase::Sending { addr: a } },
                    Action::Send,
                )
            },
            None => {
                if self.cluster.len() > 0 {
                    let a = self.cluster[0];
                    (
                        ProposeCall {
                            next_idx: 1,
                            used: None,
                            phase: Phase::Connecting { addr: a },
                        },
                        Action::Connect(a),
                    )
                } else {
                    (
                        ProposeCall { next_idx: 0, used: None, phase: Phase::Finished },
                        Action::Finish(Err(ProposeError::LeaderSearchExhausted)),
                    )
                }
            },
        }
    }

    /// Advance a proposal call by the event the driver reported, exactly as
    /// `spec_step` says.
    pub fn propose_step(&mut self, call: &mut ProposeCall, ev: Event) -> (a: Action)
        requires
            event_fits(old(call).phase, ev),
        ensures
            ({
                let t = spec_step(*old(self), *old(call), ev);
                &&& *final(self) == t.0
                &&& *final(call) == t.1
                &&& a == t.2
            }),
    {
        match call.phase {
            Phase::Connecting { addr } => match ev {
                Event::ConnectOk => {
                    call.phase = Phase::Sending { addr };
                    Action::Send
                },
                Event::ConnectFailed => {
                    call.phase = Phase::Finished;
                    Action::Finish(Err(ProposeError::ConnectError))
                },
                Event::IoFailed => {
                    call.phase = Phase::Finished;
                    Action::Finish(Err(ProposeError::IoError))
                },
                Event::Frame(_) => {
                    call.phase = Phase::Finished;
                    Action::Finish(Err(ProposeError::IoError))
                },
            },
            Phase::Sending { addr } => match ev {
                Event::Frame(bytes) => match decode_client_response(&bytes) {
                    Some(ProposalResponse::Success) => {
                        self.leader = Some(addr);
                        call.phase = Phase::Finished;
                        Action::Finish(Ok(()))
                    },
                    Some(ProposalResponse::UnknownLeader) => {
                        let mut j: usize = call.next_idx;
                        if j < self.cluster.len() {
                            if let Some(u) = call.used {
                                if self.cluster[j] == u {
                                    j = j + 1;
                                }
                            }
                        }
                        if j < self.cluster.len() {
                            let next = self.cluster[j];
                            call.next_idx = j + 1;
                            call.phase = Phase::Connecting { addr: next };
                            Action::Connect(next)
                        } else {
                            call.phase = Phase::Finished;
                            Action::Finish(Err(ProposeError::LeaderSearchExhausted))
                        }
                    },
                    Some(ProposalResponse::NotLeader(l)) => {
                        call.phase = Phase::Connecting { addr: l };
                        Action::Connect(l)
                    },
                    None => {
                        call.phase = Phase::Finished;
                        Action::Finish(Err(ProposeError::ProtocolError))
                    },
                },
                Event::IoFailed => {
                    call.phase = Phase::Finished;
                    Action::Finish(Err(ProposeError::IoError))
                },
                Event::ConnectOk => {
                    call.phase = Phase::Finished;
                    Action::Finish(Err(ProposeError::IoError))
                },
                Event::ConnectFailed => {
                    call.phase = Phase::Finished;
                    Action::Finish(Err(ProposeError::IoError))
                },
            },
            Phase::Finished => Action::Finish(Err(ProposeError::IoError)),
        }
    }
}

/// Law: when the first contacted candidate immediately confirms the proposal,
/// the call succeeds and the client retains the connection to that candidate.
pub proof fn lemma_first_contact_success(c: Client, bytes: Vec<u8>)
    requires
        c.leader is None,
        c.cluster@.len() > 0,
        spec_decode_response(bytes@) == Some(ProposalResponse::Success),
    ensures
        ({
            let s0 = spec_start(c);
            let s1 = spec_step(s0.0, s0.1, Event::ConnectOk);
            let s2 = spec_step(s1.0, s1.1, Event::Frame(bytes));
            &&& s0.2 == Action::Connect(c.cluster@[0])
            &&& s1.2 == Action::Send
            &&& s2.2 == Action::Finish(Result::<(), ProposeError>::Ok(()))
            &&& s2.0.leader == Some(c.cluster@[0])
            &&& s2.0.cluster == c.cluster
        }),
{
}

/// Law: a redirect is followed within the same call. When candidate A answers
/// `NotLeader(b)` and `b` answers `Success`, the call contacts A, then `b` —
/// each contact a fresh connection carrying a preamble — succeeds, and
/// retains the connection to `b`.
pub proof fn lemma_redirect_follow(c: Client, redirect: Vec<u8>, success: Vec<u8>, b: Address)
    requires
        c.leader is None,
        c.cluster@.len() > 0,
        spec_decode_response(redirect@) == Some(ProposalResponse::NotLeader(b)),
        spec_decode_response(success@) == Some(ProposalResponse::Success),
    ensures
        ({
            let s0 = spec_start(c);
            let s1 = spec_step(s0.0, s0.1, Event::ConnectOk);
            let s2 = spec_step(s1.0, s1.1, Event::Frame(redirect));
            let s3 = spec_step(s2.0, s2.1, Event::ConnectOk);
            let s4 = spec_step(s3.0, s3.1, Event::Frame(success));
            &&& s0.2 == Action::Connect(c.cluster@[0])
            &&& s1.2 == Action::Send
            &&& s2.2 == Action::Connect(b)
            &&& s2.1.next_idx == s1.1.next_idx
            &&& s3.2 == Action::Send
            &&& s4.2 == Action::Finish(Result::<(), ProposeError>::Ok(()))
            &&& s4.0.leader == Some(b)
            &&& s4.0.cluster == c.cluster
        }),
{
}

/// Law: when every member of a two-candidate cluster answers `UnknownLeader`,
/// the call contacts each of the two candidates exactly once, fails with
/// `LeaderSearchExhausted`, retains no connection, and leaves the client
/// exactly as it was.
pub proof fn lemma_exhaustion_two_members(c: Client, b1: Vec<u8>, b2: Vec<u8>)
    requires
        c.wf(),
        c.leader is None,
        c.cluster@.len() == 2,
        spec_decode_response(b1@) == Some(ProposalResponse::UnknownLeader),
        spec_decode_response(b2@) == Some(ProposalResponse::UnknownLeader),
    ensures
        ({
            let s0 = spec_start(c);
            let s1 = spec_step(s0.0, s0.1, Event::ConnectOk);
            let s2 = spec_step(s1.0, s1.1, Event::Frame(b1));
            let s3 = spec_step(s2.0, s2.1, Event::ConnectOk);
            let s4 = spec_step(s3.0, s3.1, Event::Frame(b2));
            &&& s0.2 == Action::Connect(c.cluster@[0])
            &&& s2.2 == Action::Connect(c.cluster@[1])
            &&& c.cluster@[0] != c.cluster@[1]
            &&& s4.2 == Action::Finish(
                Result::<(), ProposeError>::Err(ProposeError::LeaderSearchExhausted),
            )
            &&& s4.0.leader is None
            &&& s4.0 == c
        }),
{
    assert(c.cluster@[0] != c.cluster@[1]);
}

/// The run of a call that, from a connecting state, receives for each
/// established connection one response frame: two steps per contacted
/// candidate — the connect outcome, then the response body `bodies[k]`.
pub open spec fn spec_sweep(c: Client, call: ProposeCall, bodies: Seq<Vec<u8>>) -> (
    Client,
    ProposeCall,
    Action,
)
    recommends
        bodies.len() > 0,
    decreases bodies.len(),
{
    let t1 = spec_step(c, call, Event::ConnectOk);
    let t2 = spec_step(t1.0, t1.1, Event::Frame(bodies[0]));
    if bodies.len() <= 1 {
        t2
    } else {
        spec_sweep(t2.0, t2.1, bodies.drop_first())
    }
}

/// Law: however large the cluster, a call in which every contacted candidate
/// answers `UnknownLeader` exhausts the candidate set exactly once: from a
/// fresh call's connect to candidate `i - 1`, one response per remaining
/// candidate ends the call with `LeaderSearchExhausted` and leaves the client
/// unchanged.
pub proof fn lemma_all_unknown_exhausts(c: Client, call: ProposeCall, bodies: Seq<Vec<u8>>, i: int)
    requires
        call.used is None,
        1 <= i <= c.cluster@.len(),
        call.next_idx == i,
        call.phase == (Phase::Connecting { addr: c.cluster@[i - 1] }),
        bodies.len() == c.cluster@.len() - i + 1,
        forall|k: int|
            0 <= k < bodies.len() ==> spec_decode_response(bodies[k]@) == Some(
                ProposalResponse::UnknownLeader,
            ),
    ensures
        ({
            let t = spec_sweep(c, call, bodies);
            &&& t.0 == c
            &&& t.1.phase is Finished
            &&& t.2 == Action::Finish(
                Result::<(), ProposeError>::Err(ProposeError::LeaderSearchExhausted),
            )
        }),
    decreases bodies.len(),
{
    vstd::std_specs::vec::axiom_spec_len(&c.cluster);
    assert(c.cluster@.len() <= usize::MAX);
    let t1 = spec_step(c, call, Event::ConnectOk);
    let t2 = spec_step(t1.0, t1.1, Event::Frame(bodies[0]));
    if bodies.len() > 1 {
        assert forall|k: int| 0 <= k < bodies.drop_first().len() implies spec_decode_response(
            bodies.drop_first()[k]@,
        ) == Some(ProposalResponse::UnknownLeader) by {
            assert(bodies.drop_first()[k] == bodies[k + 1]);
        }
        lemma_all_unknown_exhausts(c, t2.1, bodies.drop_first(), i + 1);
    }
}

/// Law: the cluster-wide reading of the sweep: when every member of a
/// non-empty cluster answers `UnknownLeader`, one whole call contacts the
/// candidates from the front, fails with `LeaderSearchExhausted`, and leaves
/// the client exactly as it was.
pub proof fn lemma_cluster_wide_unknown_exhausts(c: Client, bodies: Seq<Vec<u8>>)
    requires
        c.leader is None,
        c.cluster@.len() > 0,
        bodies.len() == c.cluster@.len(),
        forall|k: int|
            0 <= k < bodies.len() ==> spec_decode_response(bodies[k]@) == Some(
                ProposalResponse::UnknownLeader,
            ),
    ensures
        ({
            let s0 = spec_start(c);
            let t = spec_sweep(s0.0, s0.1, bodies);
            &&& s0.2 == Action::Connect(c.cluster@[0])
            &&& t.0 == c
            &&& t.2 == Action::Finish(
                Result::<(), ProposeError>::Err(ProposeError::LeaderSearchExhausted),
            )
        }),
{
    let s0 = spec_start(c);
    lemma_all_unknown_exhausts(c, s0.1, bodies, 1);
}

/// Law: a retained connection is reused: the next call opens with the send
/// action, not a connect, so the driver writes no second preamble on it (a
/// preamble accompanies only `Action::Connect`).
pub proof fn lemma_reuse_skips_preamble(c: Client, a: Address)
    requires
        c.leader == Some(a),
    ensures
        ({
            let s0 = spec_start(c);
            &&& s0.2 == Action::Send
            &&& s0.1.phase == (Phase::Sending { addr: a })
            &&& s0.0.leader is None
            &&& s0.0.cluster == c.cluster
        }),
{
}

/// Law: a call on a client with no retained connection starts the candidate
/// iteration from the front of the full set: no memory of candidates tried by
/// an earlier, failed call persists. Together with `lemma_exhaustion_two_members`,
/// which leaves the client exactly as it was, a call after an exhausted
/// search sweeps the whole candidate set again.
pub proof fn lemma_fresh_call_iterates_full_set(c: Client)
    requires
        c.leader is None,
        c.cluster@.len() > 0,
    ensures
        ({
            let s0 = spec_start(c);
            &&& s0.2 == Action::Connect(c.cluster@[0])
            &&& s0.1.next_idx == 1
            &&& s0.1.used is None
            &&& s0.0 == c
        }),
{
}

/// Law: a response frame that decodes to none of `Success`, `UnknownLeader`
/// or `NotLeader` ends the call with `ProtocolError` — never a crash, never
/// silence — and the connection is not retained.
pub proof fn lemma_malformed_response(c: Client, call: ProposeCall, a: Address, bytes: Vec<u8>)
    requires
        call.phase == (Phase::Sending { addr: a }),
        spec_decode_response(bytes@) is None,
    ensures
        ({
            let t = spec_step(c, call, Event::Frame(bytes));
            &&& t.2 == Action::Finish(
                Result::<(), ProposeError>::Err(ProposeError::ProtocolError),
            )
            &&& t.0 == c
            &&& t.1.phase is Finished
        }),
{
}

} // verus!
