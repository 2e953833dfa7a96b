use chat_broker::message::{Content, FileData, Message};
use chat_broker::router::{route, Delivery};

fn names() -> Vec<String> {
    vec!["alice".to_string(), "bob".to_string(), "carol".to_string()]
}

fn text_from(sender: &str, body: &str) -> Message {
    Message { sender: sender.to_string(), content: Content::Text(body.to_string()), timestamp: 1 }
}

fn targets(d: &[Delivery]) -> Vec<&str> {
    d.iter().map(|x| x.to.as_str()).collect()
}

#[test]
fn broadcast_reaches_everyone_but_the_sender() {
    let d = route(&text_from("alice", "hi"), &names(), 100);
    assert_eq!(targets(&d), vec!["bob", "carol"]);
    for x in &d {
        assert_eq!(x.message.sender, "alice");
        assert_eq!(x.message.content, Content::Text("hi".to_string()));
        assert_eq!(x.message.timestamp, 100);
    }
}

#[test]
fn whisper_hit_reaches_only_the_target() {
    let d = route(&text_from("alice", "@bob secret"), &names(), 5);
    assert_eq!(d.len(), 1);
    assert_eq!(d[0].to, "bob");
    assert_eq!(d[0].message.sender, "alice");
    assert_eq!(d[0].message.content, Content::Text("secret".to_string()));
}

#[test]
fn whisper_keeps_the_rest_after_the_first_space() {
    let d = route(&text_from("alice", "@carol see you  at 5"), &names(), 5);
    assert_eq!(targets(&d), vec!["carol"]);
    assert_eq!(d[0].message.content, Content::Text("see you  at 5".to_string()));
}

#[test]
fn whisper_miss_answers_the_sender() {
    let d = route(&text_from("alice", "@dave hello"), &names(), 9);
    assert_eq!(d.len(), 1);
    assert_eq!(d[0].to, "alice");
    assert_eq!(d[0].message.sender, "Server");
    assert_eq!(d[0].message.content, Content::Text("User not found".to_string()));
    assert_eq!(d[0].message.timestamp, 9);
}

#[test]
fn malformed_whisper_answers_the_sender_once() {
    for body in ["@bob", "@", "@bobsecret"] {
        let d = route(&text_from("alice", body), &names(), 2);
        assert_eq!(d.len(), 1, "{}", body);
        assert_eq!(d[0].to, "alice");
        assert_eq!(d[0].message.sender, "Server");
        assert_eq!(d[0].message.content, Content::Text("User not found".to_string()));
    }
}

#[test]
fn whisper_with_empty_target_is_not_found() {
    let d = route(&text_from("bob", "@ hi"), &names(), 2);
    assert_eq!(targets(&d), vec!["bob"]);
    assert_eq!(d[0].message.content, Content::Text("User not found".to_string()));
}

#[test]
fn file_reaches_everyone_but_the_sender() {
    let file = FileData { data: vec![0x68, 0x69], name: "note.txt".to_string() };
    let m = Message { sender: "alice".to_string(), content: Content::File(file), timestamp: 3 };
    let d = route(&m, &names(), 4);
    assert_eq!(targets(&d), vec!["bob", "carol"]);
    for x in &d {
        assert_eq!(x.message.sender, "alice");
        assert_eq!(
            x.message.content,
            Content::File(FileData { data: vec![0x68, 0x69], name: "note.txt".to_string() })
        );
    }
}

#[test]
fn signals_route_nowhere() {
    for code in [0u8, 1, 200] {
        let m = Message { sender: "alice".to_string(), content: Content::Signal(code), timestamp: 3 };
        assert!(route(&m, &names(), 4).is_empty());
    }
}

#[test]
fn routing_twice_gives_the_same_deliveries() {
    let m = text_from("bob", "again");
    assert_eq!(route(&m, &names(), 8), route(&m, &names(), 8));
}

#[test]
fn broadcast_with_nobody_else_goes_nowhere() {
    let only = vec!["alice".to_string()];
    assert!(route(&text_from("alice", "hello?"), &only, 1).is_empty());
}

#[test]
fn whisper_to_oneself_goes_nowhere() {
    assert!(route(&text_from("alice", "@alice note to self"), &names(), 5).is_empty());
}
