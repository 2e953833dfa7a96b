use chat_broker::client::{classify_input, parse_input, should_retry, ClientInput};
use chat_broker::message::{Content, FileData, Message};

#[test]
fn blank_lines_send_nothing() {
    assert_eq!(parse_input(""), ClientInput::Nothing);
    assert_eq!(parse_input("  \t\n"), ClientInput::Nothing);
}

#[test]
fn text_lines_are_trimmed() {
    assert_eq!(parse_input("  hello there \n"), ClientInput::Text("hello there".to_string()));
    assert_eq!(parse_input("/filex"), ClientInput::Text("/filex".to_string()));
    assert_eq!(parse_input("@bob hi\n"), ClientInput::Text("@bob hi".to_string()));
}

#[test]
fn file_command_names_a_path() {
    assert_eq!(parse_input("/file notes/a.txt\n"), ClientInput::File("notes/a.txt".to_string()));
    assert_eq!(parse_input("/file /file x"), ClientInput::File("x".to_string()));
    assert_eq!(parse_input("/file  y"), ClientInput::File(" y".to_string()));
}

#[test]
fn retries_stop_at_the_last_attempt() {
    assert!(should_retry(0, 5));
    assert!(should_retry(3, 5));
    assert!(!should_retry(4, 5));
    assert!(!should_retry(0, 0));
    assert!(!should_retry(255, 255));
}

#[test]
fn messages_are_described() {
    let text = Message { sender: "alice".to_string(), content: Content::Text("hi".to_string()), timestamp: 0 };
    assert_eq!(text.describe("12:00:01"), "12:00:01 | alice : hi");
    let file = Message {
        sender: "bob".to_string(),
        content: Content::File(FileData { data: vec![1], name: "a.txt".to_string() }),
        timestamp: 0,
    };
    assert_eq!(file.describe("t"), "t | bob : Sent file => a.txt");
    let beat = Message { sender: "carol".to_string(), content: Content::Signal(1), timestamp: 0 };
    assert_eq!(beat.describe("t"), "t | carol is still alive!");
    let other = Message { sender: "dan".to_string(), content: Content::Signal(9), timestamp: 0 };
    assert_eq!(other.describe("t"), "t | dan sent a signal which is still not implemented!");
}

#[test]
fn contents_are_described() {
    assert_eq!(Content::Text("x y".to_string()).describe(), "x y");
    assert_eq!(Content::File(FileData { data: vec![], name: "f".to_string() }).describe(), "[File content]");
    assert_eq!(Content::Signal(42).describe(), "Signal: code 42");
    assert_eq!(Content::Signal(0).describe(), "Signal: code 0");
}

#[test]
fn trimmed_lines_are_classified() {
    assert_eq!(classify_input(""), ClientInput::Nothing);
    assert_eq!(classify_input("/file a"), ClientInput::File("a".to_string()));
    assert_eq!(classify_input(" /file a"), ClientInput::Text(" /file a".to_string()));
}
