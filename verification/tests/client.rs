use raft_client::wire::encode_client_response;
use raft_client::Action;
use raft_client::Address;
use raft_client::Client;
use raft_client::Event;
use raft_client::ProposalResponse;
use raft_client::ProposeError;

fn addr(last_octet: u8, port: u16) -> Address {
    Address { ip0: 127, ip1: 0, ip2: 0, ip3: last_octet, port }
}

/// The body bytes of a response frame, as a driver would hand them back.
fn response_body(r: ProposalResponse) -> Vec<u8> {
    encode_client_response(&r)[8..].to_vec()
}

fn success() -> Event {
    Event::Frame(response_body(ProposalResponse::Success))
}

fn unknown_leader() -> Event {
    Event::Frame(response_body(ProposalResponse::UnknownLeader))
}

fn not_leader(a: Address) -> Event {
    Event::Frame(response_body(ProposalResponse::NotLeader(a)))
}

#[test]
fn first_contact_success_retains_connection() {
    let s1 = addr(1, 4000);
    let mut client = Client::new(vec![s1]);
    assert!(!client.has_leader_connection());

    let (mut call, action) = client.propose_start();
    assert_eq!(action, Action::Connect(s1));
    assert_eq!(client.propose_step(&mut call, Event::ConnectOk), Action::Send);
    assert_eq!(
        client.propose_step(&mut call, success()),
        Action::Finish(Ok(()))
    );
    assert!(client.has_leader_connection());
    assert_eq!(client.leader, Some(s1));
}

#[test]
fn redirect_is_followed_within_one_call() {
    let s1 = addr(1, 4000);
    let s2 = addr(2, 4000);
    let mut client = Client::new(vec![s1]);

    let (mut call, action) = client.propose_start();
    assert_eq!(action, Action::Connect(s1));
    assert_eq!(client.propose_step(&mut call, Event::ConnectOk), Action::Send);
    // s2 is outside the candidate set: a redirect may name any address.
    assert_eq!(
        client.propose_step(&mut call, not_leader(s2)),
        Action::Connect(s2)
    );
    assert_eq!(client.propose_step(&mut call, Event::ConnectOk), Action::Send);
    assert_eq!(
        client.propose_step(&mut call, success()),
        Action::Finish(Ok(()))
    );
    assert_eq!(client.leader, Some(s2));
}

#[test]
fn exhaustion_contacts_each_candidate_once() {
    let s1 = addr(1, 4000);
    let s2 = addr(2, 4000);
    let mut client = Client::new(vec![s1, s2]);

    let (mut call, action) = client.propose_start();
    assert_eq!(action, Action::Connect(s1));
    assert_eq!(client.propose_step(&mut call, Event::ConnectOk), Action::Send);
    assert_eq!(
        client.propose_step(&mut call, unknown_leader()),
        Action::Connect(s2)
    );
    assert_eq!(client.propose_step(&mut call, Event::ConnectOk), Action::Send);
    assert_eq!(
        client.propose_step(&mut call, unknown_leader()),
        Action::Finish(Err(ProposeError::LeaderSearchExhausted))
    );
    assert!(!client.has_leader_connection());
}

#[test]
fn three_member_exhaustion_sweeps_once() {
    let s1 = addr(1, 4000);
    let s2 = addr(2, 4000);
    let s3 = addr(3, 4000);
    let mut client = Client::new(vec![s1, s2, s3]);

    let (mut call, action) = client.propose_start();
    assert_eq!(action, Action::Connect(s1));
    assert_eq!(client.propose_step(&mut call, Event::ConnectOk), Action::Send);
    assert_eq!(
        client.propose_step(&mut call, unknown_leader()),
        Action::Connect(s2)
    );
    assert_eq!(client.propose_step(&mut call, Event::ConnectOk), Action::Send);
    assert_eq!(
        client.propose_step(&mut call, unknown_leader()),
        Action::Connect(s3)
    );
    assert_eq!(client.propose_step(&mut call, Event::ConnectOk), Action::Send);
    assert_eq!(
        client.propose_step(&mut call, unknown_leader()),
        Action::Finish(Err(ProposeError::LeaderSearchExhausted))
    );
    assert!(!client.has_leader_connection());
}

#[test]
fn reused_connection_gets_no_second_preamble() {
    let s1 = addr(1, 4000);
    let mut client = Client::new(vec![s1]);

    let (mut call, action) = client.propose_start();
    assert_eq!(action, Action::Connect(s1));
    assert_eq!(client.propose_step(&mut call, Event::ConnectOk), Action::Send);
    assert_eq!(
        client.propose_step(&mut call, success()),
        Action::Finish(Ok(()))
    );

    // The second call opens with a send on the retained connection: no
    // connect action, so the driver writes no preamble.
    let (call2, action2) = client.propose_start();
    assert_eq!(action2, Action::Send);
    assert_eq!(call2.used, Some(s1));
}

#[test]
fn failed_search_leaves_no_memory_across_calls() {
    let s1 = addr(1, 4000);
    let s2 = addr(2, 4000);
    let mut client = Client::new(vec![s1, s2]);

    let (mut call, _) = client.propose_start();
    client.propose_step(&mut call, Event::ConnectOk);
    client.propose_step(&mut call, unknown_leader());
    client.propose_step(&mut call, Event::ConnectOk);
    assert_eq!(
        client.propose_step(&mut call, unknown_leader()),
        Action::Finish(Err(ProposeError::LeaderSearchExhausted))
    );

    // The next call iterates the full candidate set from the start.
    let (call2, action2) = client.propose_start();
    assert_eq!(action2, Action::Connect(s1));
    assert_eq!(call2.next_idx, 1);
    assert_eq!(call2.used, None);
}

#[test]
fn malformed_response_is_a_protocol_error() {
    let s1 = addr(1, 4000);
    let mut client = Client::new(vec![s1]);

    let (mut call, _) = client.propose_start();
    assert_eq!(client.propose_step(&mut call, Event::ConnectOk), Action::Send);
    assert_eq!(
        client.propose_step(&mut call, Event::Frame(vec![9])),
        Action::Finish(Err(ProposeError::ProtocolError))
    );
    assert!(!client.has_leader_connection());
}

#[test]
fn connect_failure_aborts_the_call() {
    let s1 = addr(1, 4000);
    let mut client = Client::new(vec![s1]);

    let (mut call, _) = client.propose_start();
    assert_eq!(
        client.propose_step(&mut call, Event::ConnectFailed),
        Action::Finish(Err(ProposeError::ConnectError))
    );
    assert!(!client.has_leader_connection());
}

#[test]
fn io_failure_aborts_the_call() {
    let s1 = addr(1, 4000);
    let mut client = Client::new(vec![s1]);

    let (mut call, _) = client.propose_start();
    assert_eq!(client.propose_step(&mut call, Event::ConnectOk), Action::Send);
    assert_eq!(
        client.propose_step(&mut call, Event::IoFailed),
        Action::Finish(Err(ProposeError::IoError))
    );
    assert!(!client.has_leader_connection());
}

#[test]
fn empty_cluster_exhausts_at_once() {
    let mut client = Client::new(vec![]);
    let (_, action) = client.propose_start();
    assert_eq!(
        action,
        Action::Finish(Err(ProposeError::LeaderSearchExhausted))
    );
}

#[test]
fn duplicate_candidates_are_tried_once() {
    let s1 = addr(1, 4000);
    let mut client = Client::new(vec![s1, s1, s1]);
    assert_eq!(client.cluster, vec![s1]);

    let (mut call, action) = client.propose_start();
    assert_eq!(action, Action::Connect(s1));
    assert_eq!(client.propose_step(&mut call, Event::ConnectOk), Action::Send);
    assert_eq!(
        client.propose_step(&mut call, unknown_leader()),
        Action::Finish(Err(ProposeError::LeaderSearchExhausted))
    );
}

#[test]
fn reused_address_is_not_drawn_again() {
    let s1 = addr(1, 4000);
    let s2 = addr(2, 4000);
    let mut client = Client::new(vec![s1, s2]);

    // First call succeeds on s1 and retains the connection.
    let (mut call, _) = client.propose_start();
    client.propose_step(&mut call, Event::ConnectOk);
    client.propose_step(&mut call, success());
    assert_eq!(client.leader, Some(s1));

    // The second call reuses s1; when it answers UnknownLeader, the cursor
    // skips s1 and draws s2, never contacting s1 twice in one call.
    let (mut call2, action) = client.propose_start();
    assert_eq!(action, Action::Send);
    assert_eq!(
        client.propose_step(&mut call2, unknown_leader()),
        Action::Connect(s2)
    );
}

#[test]
fn full_scenario_two_member_cluster() {
    let s1 = addr(1, 4000);
    let s2 = addr(2, 4000);
    let mut client = Client::new(vec![s1, s2]);

    // Call 1: connect s1, preamble, propose; s1 answers Success.
    let (mut call, action) = client.propose_start();
    assert_eq!(action, Action::Connect(s1));
    assert_eq!(client.propose_step(&mut call, Event::ConnectOk), Action::Send);
    assert_eq!(
        client.propose_step(&mut call, success()),
        Action::Finish(Ok(()))
    );
    assert!(client.has_leader_connection());

    // Call 2: reuse the s1 connection; s1 answers UnknownLeader; s1 counts
    // as tried, so s2 is contacted; s2 answers UnknownLeader; exhausted.
    let (mut call, action) = client.propose_start();
    assert_eq!(action, Action::Send);
    assert_eq!(
        client.propose_step(&mut call, unknown_leader()),
        Action::Connect(s2)
    );
    assert_eq!(client.propose_step(&mut call, Event::ConnectOk), Action::Send);
    assert_eq!(
        client.propose_step(&mut call, unknown_leader()),
        Action::Finish(Err(ProposeError::LeaderSearchExhausted))
    );
    assert!(!client.has_leader_connection());

    // Call 3: a fresh iterator: connect s1; s1 redirects to s2; s2 answers
    // Success; the retained connection now points at s2.
    let (mut call, action) = client.propose_start();
    assert_eq!(action, Action::Connect(s1));
    assert_eq!(client.propose_step(&mut call, Event::ConnectOk), Action::Send);
    assert_eq!(
        client.propose_step(&mut call, not_leader(s2)),
        Action::Connect(s2)
    );
    assert_eq!(client.propose_step(&mut call, Event::ConnectOk), Action::Send);
    assert_eq!(
        client.propose_step(&mut call, success()),
        Action::Finish(Ok(()))
    );
    assert_eq!(client.leader, Some(s2));
}

#[test]
fn preamble_carries_the_minted_identity() {
    let client = Client::new(vec![addr(1, 4000)]);
    let frame = raft_client::wire::encode_preamble(&client.id);
    let body = frame[8..].to_vec();
    assert_eq!(raft_client::wire::decode_preamble(&body), Some(client.id));
}
