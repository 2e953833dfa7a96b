use chat_broker::codec::{ChatMessage, DecodeError};
use chat_broker::message::{Content, FileData, Message};

fn text_message(sender: &str, body: &str, timestamp: u32) -> Message {
    Message { sender: sender.to_string(), content: Content::Text(body.to_string()), timestamp }
}

#[test]
fn text_message_round_trip() {
    let m = text_message("alice", "hi there", 1_700_000_000);
    let back = Message::from_bytes(&m.as_bytes()).unwrap();
    assert_eq!(back, m);
}

#[test]
fn file_message_round_trip() {
    let m = Message {
        sender: "bob".to_string(),
        content: Content::File(FileData { data: vec![0x68, 0x69, 0x00, 0xff], name: "note.txt".to_string() }),
        timestamp: 42,
    };
    assert_eq!(Message::from_bytes(&m.as_bytes()).unwrap(), m);
}

#[test]
fn signal_message_round_trip() {
    for code in [0u8, 1, 7, 255] {
        let m = Message { sender: "carol".to_string(), content: Content::Signal(code), timestamp: u32::MAX };
        assert_eq!(Message::from_bytes(&m.as_bytes()).unwrap(), m);
    }
}

#[test]
fn non_ascii_text_round_trip() {
    let m = text_message("zoë", "héllo ✓ 日本", 5);
    assert_eq!(Message::from_bytes(&m.as_bytes()).unwrap(), m);
}

#[test]
fn empty_text_round_trip() {
    let m = text_message("dan", "", 0);
    assert_eq!(Message::from_bytes(&m.as_bytes()).unwrap(), m);
}

#[test]
fn encoding_of_a_text_message_is_exact() {
    let m = text_message("ab", "hi", 0x01020304);
    let expected: Vec<u8> = vec![
        0, 0, 0, 0, 0, 0, 0, 2, b'a', b'b', // sender
        1, 0, 0, 0, 0, 0, 0, 0, 0, 2, b'h', b'i', // present, text tag, body
        1, 1, 2, 3, 4, // present, timestamp
    ];
    assert_eq!(m.as_bytes(), expected);
}

#[test]
fn encoding_of_a_signal_is_exact() {
    let m = Message { sender: "x".to_string(), content: Content::Signal(0), timestamp: 0 };
    let expected: Vec<u8> = vec![0, 0, 0, 0, 0, 0, 0, 1, b'x', 1, 2, 0, 1, 0, 0, 0, 0];
    assert_eq!(m.as_bytes(), expected);
}

#[test]
fn truncated_bytes_are_rejected() {
    let bytes = text_message("alice", "hello", 9).as_bytes();
    for cut in 0..bytes.len() {
        assert_eq!(Message::from_bytes(&bytes[..cut]), Err(DecodeError::Truncated), "cut at {}", cut);
    }
}

#[test]
fn unknown_content_tag_is_rejected() {
    let mut bytes = text_message("ab", "hi", 0).as_bytes();
    bytes[11] = 9;
    assert_eq!(Message::from_bytes(&bytes), Err(DecodeError::UnknownTag));
}

#[test]
fn unknown_presence_flag_is_rejected() {
    let mut bytes = text_message("ab", "hi", 0).as_bytes();
    bytes[10] = 2;
    assert_eq!(Message::from_bytes(&bytes), Err(DecodeError::UnknownTag));
}

#[test]
fn invalid_utf8_is_rejected() {
    let mut bytes = text_message("ab", "hi", 0).as_bytes();
    bytes[8] = 0xff;
    assert_eq!(Message::from_bytes(&bytes), Err(DecodeError::InvalidUtf8));
}

#[test]
fn trailing_bytes_are_rejected() {
    let mut bytes = text_message("ab", "hi", 0).as_bytes();
    bytes.push(0);
    assert_eq!(Message::from_bytes(&bytes), Err(DecodeError::TrailingBytes));
}

#[test]
fn missing_fields_are_rejected() {
    let record = ChatMessage { sender: "ab".to_string(), content: None, timestamp: Some(3) };
    assert_eq!(Message::from_bytes(&record.serialize()), Err(DecodeError::MissingField));
    let record = ChatMessage { sender: "ab".to_string(), content: Some(Content::Signal(0)), timestamp: None };
    assert_eq!(Message::from_bytes(&record.serialize()), Err(DecodeError::MissingField));
}

#[test]
fn record_with_absent_fields_round_trips() {
    let record = ChatMessage { sender: "ab".to_string(), content: None, timestamp: None };
    let bytes = record.serialize();
    assert_eq!(bytes, vec![0, 0, 0, 0, 0, 0, 0, 2, b'a', b'b', 0, 0]);
    assert_eq!(ChatMessage::deserialize(&bytes).unwrap(), record);
}

#[test]
fn constructors_set_sender_and_content() {
    let from = "alice".to_string();
    let m = Message::from("hello", &from);
    assert_eq!(m.sender, "alice");
    assert_eq!(m.content, Content::Text("hello".to_string()));
    let f = Message::from_file(vec![1, 2], "a.bin".to_string(), &from);
    assert_eq!(f.content, Content::File(FileData { data: vec![1, 2], name: "a.bin".to_string() }));
    let s = Message::from_code(0, &from);
    assert_eq!(s.content, Content::Signal(0));
    assert!(s.timestamp > 1_600_000_000);
}

#[test]
fn clone_keeps_every_field() {
    let m = Message {
        sender: "bob".to_string(),
        content: Content::File(FileData { data: vec![9, 8, 7], name: "n".to_string() }),
        timestamp: 77,
    };
    assert_eq!(m.clone(), m);
    assert_eq!(Content::default(), Content::Text(String::new()));
}
