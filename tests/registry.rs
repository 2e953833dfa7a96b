use chat_broker::message::{Content, Message};
use chat_broker::registry::{HandshakeError, Registry};

#[test]
fn insert_rejects_a_taken_name() {
    let mut r: Registry<u32> = Registry::new();
    assert_eq!(r.insert("alice".to_string(), 1), Ok(()));
    assert_eq!(r.insert("bob".to_string(), 2), Ok(()));
    assert_eq!(r.insert("alice".to_string(), 3), Err(HandshakeError::UsernameTaken));
    assert_eq!(r.len(), 2);
    assert_eq!(r.lookup("alice"), Some(&1));
}

#[test]
fn lookup_and_contains() {
    let mut r: Registry<&str> = Registry::new();
    r.insert("carol".to_string(), "queue-c").unwrap();
    assert!(r.contains("carol"));
    assert!(!r.contains("Carol"));
    assert_eq!(r.lookup("carol"), Some(&"queue-c"));
    assert_eq!(r.lookup("dave"), None);
}

#[test]
fn remove_is_idempotent() {
    let mut r: Registry<u8> = Registry::new();
    r.insert("alice".to_string(), 1).unwrap();
    r.insert("bob".to_string(), 2).unwrap();
    assert_eq!(r.remove("alice"), Some(1));
    assert_eq!(r.remove("alice"), None);
    assert_eq!(r.usernames(), vec!["bob".to_string()]);
    assert_eq!(r.insert("alice".to_string(), 5), Ok(()));
    assert_eq!(r.usernames(), vec!["bob".to_string(), "alice".to_string()]);
}

#[test]
fn clear_empties_the_registry() {
    let mut r: Registry<u8> = Registry::new();
    r.insert("alice".to_string(), 1).unwrap();
    r.clear();
    assert_eq!(r.len(), 0);
    assert!(r.usernames().is_empty());
}

#[test]
fn snapshot_copies_names_and_handles() {
    let mut r: Registry<String> = Registry::new();
    r.insert("alice".to_string(), "qa".to_string()).unwrap();
    r.insert("bob".to_string(), "qb".to_string()).unwrap();
    let snap = r.snapshot();
    r.remove("alice");
    assert_eq!(
        snap,
        vec![("alice".to_string(), "qa".to_string()), ("bob".to_string(), "qb".to_string())]
    );
}

#[test]
fn broadcast_to_others_skips_the_sender() {
    let mut r: Registry<u8> = Registry::new();
    for (i, n) in ["alice", "bob", "carol"].iter().enumerate() {
        r.insert(n.to_string(), i as u8).unwrap();
    }
    let m = Message { sender: "bob".to_string(), content: Content::Text("yo".to_string()), timestamp: 4 };
    let d = r.broadcast_to_others("bob", &m);
    let to: Vec<&str> = d.iter().map(|x| x.to.as_str()).collect();
    assert_eq!(to, vec!["alice", "carol"]);
    assert!(d.iter().all(|x| x.message == m));
}
