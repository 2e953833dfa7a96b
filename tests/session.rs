use chat_broker::codec::DecodeError;
use chat_broker::frame::TransportError;
use chat_broker::handshake::{is_valid_username, join, validate_username};
use chat_broker::message::{Content, Message};
use chat_broker::registry::{HandshakeError, Registry};
use chat_broker::session::{depart, event_of_payload, shutdown_notices, step, Action, Event, LeaveReason, Session};

fn three() -> Registry<u32> {
    let mut r = Registry::new();
    for (i, n) in ["alice", "bob", "carol"].iter().enumerate() {
        assert!(join(&mut r, n, i as u32).is_ok());
    }
    r
}

fn payload(sender: &str, content: Content) -> Vec<u8> {
    Message { sender: sender.to_string(), content, timestamp: 11 }.as_bytes()
}

#[test]
fn username_length_boundary() {
    assert!(validate_username("abc").is_ok());
    assert_eq!(validate_username("ab"), Err(HandshakeError::InvalidUsername));
    assert_eq!(validate_username("ab1"), Ok("ab1".to_string()));
    assert_eq!(validate_username("ab!"), Err(HandshakeError::InvalidUsername));
    assert!(is_valid_username("abc"));
    assert!(!is_valid_username("a b"));
}

#[test]
fn username_is_trimmed() {
    assert_eq!(validate_username("  alice\r\n"), Ok("alice".to_string()));
    assert_eq!(validate_username(" ab \n"), Err(HandshakeError::InvalidUsername));
    assert_eq!(validate_username(""), Err(HandshakeError::InvalidUsername));
}

#[test]
fn duplicate_username_is_refused_without_change() {
    let mut r = three();
    assert_eq!(join(&mut r, "alice\n", 9), Err(HandshakeError::UsernameTaken));
    assert_eq!(r.len(), 3);
    assert_eq!(r.lookup("alice"), Some(&0));
    assert_eq!(join(&mut r, "x!", 9), Err(HandshakeError::InvalidUsername));
    assert_eq!(r.len(), 3);
}

#[test]
fn payload_is_routed_under_the_session_name() {
    let mut r = three();
    let mut s = Session::new("alice".to_string(), 0);
    let p = payload("mallory", Content::Text("hi".to_string()));
    match step(&mut s, &mut r, event_of_payload(&p), 4, 500) {
        Action::Deliver(d) => {
            let to: Vec<&str> = d.iter().map(|x| x.to.as_str()).collect();
            assert_eq!(to, vec!["bob", "carol"]);
            for x in &d {
                assert_eq!(x.message.sender, "alice");
                assert_eq!(x.message.content, Content::Text("hi".to_string()));
            }
        }
        other => panic!("unexpected {:?}", other),
    }
    assert_eq!(s.last_activity, 4);
    assert_eq!(r.len(), 3);
}

#[test]
fn heartbeat_keeps_the_session_alive() {
    let mut r = three();
    let mut s = Session::new("alice".to_string(), 0);
    match step(&mut s, &mut r, event_of_payload(&payload("alice", Content::Signal(0))), 9, 1) {
        Action::Deliver(d) => assert!(d.is_empty()),
        other => panic!("unexpected {:?}", other),
    }
    match step(&mut s, &mut r, Event::Tick, 19, 1) {
        Action::Deliver(d) => assert!(d.is_empty()),
        other => panic!("unexpected {:?}", other),
    }
    assert!(!s.expired(19));
    assert!(s.expired(20));
}

#[test]
fn silent_participant_times_out() {
    let mut r = three();
    let mut s = Session::new("alice".to_string(), 100);
    match step(&mut s, &mut r, Event::Tick, 110, 7) {
        Action::Deliver(d) => assert!(d.is_empty()),
        other => panic!("unexpected {:?}", other),
    }
    match step(&mut s, &mut r, Event::Tick, 111, 7) {
        Action::Leave(reason, d) => {
            assert_eq!(reason, LeaveReason::HeartbeatTimeout);
            let to: Vec<&str> = d.iter().map(|x| x.to.as_str()).collect();
            assert_eq!(to, vec!["bob", "carol"]);
            for x in &d {
                assert_eq!(x.message.sender, "Server");
                assert_eq!(x.message.content, Content::Text("alice has left the chat.".to_string()));
                assert_eq!(x.message.timestamp, 7);
            }
        }
        other => panic!("unexpected {:?}", other),
    }
    assert!(!r.contains("alice"));
    assert_eq!(r.len(), 2);
}

#[test]
fn undecodable_payload_ends_the_session() {
    let mut r = three();
    let mut s = Session::new("bob".to_string(), 0);
    match step(&mut s, &mut r, event_of_payload(&vec![1, 2, 3]), 1, 1) {
        Action::Leave(reason, d) => {
            assert_eq!(reason, LeaveReason::Decode(DecodeError::Truncated));
            assert_eq!(d.len(), 2);
        }
        other => panic!("unexpected {:?}", other),
    }
    assert!(!r.contains("bob"));
}

#[test]
fn transport_failure_ends_the_session() {
    let mut r = three();
    let mut s = Session::new("carol".to_string(), 0);
    match step(&mut s, &mut r, Event::Failed(TransportError::Closed), 1, 1) {
        Action::Leave(reason, d) => {
            assert_eq!(reason, LeaveReason::Transport(TransportError::Closed));
            let to: Vec<&str> = d.iter().map(|x| x.to.as_str()).collect();
            assert_eq!(to, vec!["alice", "bob"]);
        }
        other => panic!("unexpected {:?}", other),
    }
    assert_eq!(r.usernames(), vec!["alice".to_string(), "bob".to_string()]);
}

#[test]
fn departing_twice_changes_nothing_more() {
    let mut r = three();
    let d = depart(&mut r, "bob", 3);
    assert_eq!(d.len(), 2);
    let again = depart(&mut r, "bob", 3);
    assert_eq!(again.len(), 2);
    assert_eq!(r.len(), 2);
}

#[test]
fn shutdown_notifies_everyone() {
    let r = three();
    let d = shutdown_notices(&r, 12);
    let to: Vec<&str> = d.iter().map(|x| x.to.as_str()).collect();
    assert_eq!(to, vec!["alice", "bob", "carol"]);
    for x in &d {
        assert_eq!(x.message.sender, "Server");
        assert_eq!(x.message.content, Content::Text("Server is shutting down...".to_string()));
    }
}
