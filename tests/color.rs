use chat_broker::chat::MessageType;
use chat_broker::color::{parse_pair, Color};

#[test]
fn hex_codes() {
    assert_eq!(Color::Rgb(255, 0, 16).to_hex(), Some("#FF0010".to_string()));
    assert_eq!(Color::Rgba(1, 2, 3, 171).to_hex(), Some("#010203AB".to_string()));
    assert_eq!(Color::Hex("#abcdef").to_hex(), Some("#abcdef".to_string()));
    assert_eq!(Color::Crimson.to_hex(), Some("#DC143C".to_string()));
    assert_eq!(Color::Indexed(4).to_hex(), Some("#0000FF".to_string()));
    assert_eq!(Color::Indexed(233).to_hex(), Some("#0B0B0B".to_string()));
    assert_eq!(Color::Indexed(100).to_hex(), None);
    assert_eq!(Color::Gray(23).to_hex(), Some("#FDFDFD".to_string()));
}

#[test]
fn grayscale_levels() {
    assert_eq!(Color::Rgb(10, 20, 31).to_grayscale(), Some(20));
    assert_eq!(Color::Rgba(255, 255, 255, 0).to_grayscale(), Some(255));
    assert_eq!(Color::Gray(2).to_grayscale(), Some(22));
    assert_eq!(Color::Indexed(1).to_grayscale(), Some(76));
    assert_eq!(Color::Indexed(255).to_grayscale(), Some(253));
    assert_eq!(Color::Indexed(16).to_grayscale(), Some(128));
    assert_eq!(Color::Hex("#0A141F").to_grayscale(), Some(20));
    assert_eq!(Color::Hex("#0A14").to_grayscale(), None);
    assert_eq!(Color::Hex("#0A141G").to_grayscale(), None);
    assert_eq!(Color::SlateGray.to_grayscale(), Some(120));
}

#[test]
fn parsing_hex_codes() {
    assert_eq!(Color::from_hex("#1a2B3c"), Some(Color::Rgb(0x1a, 0x2b, 0x3c)));
    assert_eq!(Color::from_hex("#1a2B3cFF"), Some(Color::Rgba(0x1a, 0x2b, 0x3c, 0xff)));
    assert_eq!(Color::from_hex("#+f+f+f"), Some(Color::Rgb(15, 15, 15)));
    assert_eq!(Color::from_hex("#-f0000"), None);
    assert_eq!(Color::from_hex("123456"), None);
    assert_eq!(Color::from_hex("#12345"), None);
    assert_eq!(Color::from_hex("#1234567"), None);
    assert_eq!(parse_pair(b'f', b'F'), Some(255));
    assert_eq!(parse_pair(b'+', b'+'), None);
}

#[test]
fn ansi_codes() {
    assert_eq!(Color::Red.to_ansi_code(), Some("\x1b[31m".to_string()));
    assert_eq!(Color::Rgb(1, 22, 255).to_ansi_code(), Some("\x1b[38;2;1;22;255m".to_string()));
    assert_eq!(Color::Gray(40).to_ansi_code(), Some("\x1b[38;5;255m".to_string()));
    assert_eq!(Color::Gray(3).to_ansi_code(), Some("\x1b[38;5;235m".to_string()));
    assert_eq!(Color::Hex("#FFFFFF").to_ansi_code(), None);
    assert_eq!(Color::Blue.to_background_ansi_code(), "\x1b[44m");
    assert_eq!(Color::Indexed(7).to_background_ansi_code(), "\x1b[48;5;7m");
    assert_eq!(Color::Rgba(100, 0, 9, 1).to_background_ansi_code(), "\x1b[48;2;100;0;9m");
    assert_eq!(Color::Hex("0a0B0c").to_background_ansi_code(), "\x1b[48;2;10;11;12m");
    assert_eq!(Color::Hex("zz0B0c").to_background_ansi_code(), "\x1b[48;2;0;11;12m");
    assert_eq!(Color::Hex("#0a0B0c").to_background_ansi_code(), "\x1b[49m");
    assert_eq!(Color::reset(), "\x1b[0m");
    assert_eq!(Color::bold(), "\x1b[1m");
    assert_eq!(Color::italic(), "\x1b[3m");
    assert_eq!(Color::underline(), "\x1b[4m");
    assert_eq!(Color::strikethrough(), "\x1b[9m");
    assert_eq!(Color::reset_style(), "\x1b[22m");
    assert_eq!(Color::default(), Color::White);
}

#[test]
fn message_type_names() {
    assert_eq!(MessageType::Private.as_str_name(), "PRIVATE");
    assert_eq!(MessageType::Public.as_str_name(), "PUBLIC");
    assert_eq!(MessageType::from_str_name("PUBLIC"), Some(MessageType::Public));
    assert_eq!(MessageType::from_str_name("PRIVATE"), Some(MessageType::Private));
    assert_eq!(MessageType::from_str_name("public"), None);
}

#[test]
fn hex_code_round_trips() {
    for c in [Color::Rgb(0, 127, 255), Color::Rgb(16, 1, 171), Color::Rgba(9, 250, 32, 0), Color::Rgba(255, 255, 255, 255)] {
        let code = c.to_hex().unwrap();
        let code: &'static str = Box::leak(code.into_boxed_str());
        assert_eq!(Color::from_hex(code), Some(c));
    }
}
