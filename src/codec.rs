//! The wire record of a message and its byte encoding.
//!
//! A record is written as
//!
//! ```text
//! record    := text(sender) opt(content) opt(timestamp)
//! text(s)   := be64(n) utf8(s)              n = byte length of utf8(s)
//! raw(b)    := be64(n) b                    n = length of b
//! opt(x)    := 0x00 | 0x01 x
//! content   := 0x00 text(body)
//!            | 0x01 text(name) raw(data)
//!            | 0x02 code
//! timestamp := be32(seconds)
//! ```
//!
//! Decoding accepts exactly the byte strings that encoding can produce.

use vstd::prelude::*;
use vstd::utf8::*;
use crate::be::{be_bytes, be_value, lemma_be_bytes_of_value, lemma_be_value_of_bytes, push_be_u64, read_be_u64};
use crate::message::{Content, ContentView, FileData, Message, MessageView};

verus! {

broadcast use group_utf8_lib;

pub const TAG_TEXT: u8 = 0;
pub const TAG_FILE: u8 = 1;
pub const TAG_SIGNAL: u8 = 2;
pub const ABSENT: u8 = 0;
pub const PRESENT: u8 = 1;

/// Why a byte string is not a record.
#[derive(Clone, Copy, Debug, PartialEq, Eq, Structural)]
pub enum DecodeError {
    /// The bytes end before the record does.
    Truncated,
    /// A content tag or presence flag is not one of the known values.
    UnknownTag,
    /// A text field is not valid UTF-8.
    InvalidUtf8,
    /// Bytes follow the end of the record.
    TrailingBytes,
    /// The record lacks its content or its timestamp.
    MissingField,
}

/// The record as it travels on the wire: content and timestamp may be absent.
#[derive(Debug, PartialEq, Eq)]
pub struct ChatMessage {
    pub sender: String,
    pub content: Option<Content>,
    pub timestamp: Option<u32>,
}

/// The mathematical value of a `ChatMessage`.
pub struct RecordView {
    pub sender: Seq<char>,
    pub content: Option<ContentView>,
    pub timestamp: Option<u32>,
}

impl View for ChatMessage {
    type V = RecordView;

    open spec fn view(&self) -> RecordView {
        RecordView {
            sender: self.sender@,
            content: match self.content {
                Some(c) => Some(c@),
                None => None,
            },
            timestamp: self.timestamp,
        }
    }
}

// ---------------------------------------------------------------------------
// The encoding, as sequences of bytes.

/// Four big-endian bytes of `x`.
pub open spec fn be32_bytes(x: u32) -> Seq<u8> {
    seq![((x >> 24) & 0xff) as u8, ((x >> 16) & 0xff) as u8, ((x >> 8) & 0xff) as u8, (x & 0xff) as u8]
}

/// The value of four big-endian bytes.
pub open spec fn be32_value(s: Seq<u8>) -> u32 {
    (s[0] as u32) << 24 | (s[1] as u32) << 16 | (s[2] as u32) << 8 | (s[3] as u32)
}

/// A length-prefixed byte string.
pub open spec fn raw_field(b: Seq<u8>) -> Seq<u8> {
    be_bytes(b.len() as u64) + b
}

/// A length-prefixed UTF-8 text.
pub open spec fn text_field(s: Seq<char>) -> Seq<u8> {
    raw_field(encode_utf8(s))
}

pub open spec fn content_bytes(c: ContentView) -> Seq<u8> {
    match c {
        ContentView::Text(t) => seq![TAG_TEXT] + text_field(t),
        ContentView::File(name, data) => seq![TAG_FILE] + text_field(name) + raw_field(data),
        ContentView::Signal(code) => seq![TAG_SIGNAL, code],
    }
}

pub open spec fn opt_content_bytes(c: Option<ContentView>) -> Seq<u8> {
    match c {
        Some(c) => seq![PRESENT] + content_bytes(c),
        None => seq![ABSENT],
    }
}

pub open spec fn opt_timestamp_bytes(t: Option<u32>) -> Seq<u8> {
    match t {
        Some(t) => seq![PRESENT] + be32_bytes(t),
        None => seq![ABSENT],
    }
}

/// The bytes of a record.
pub open spec fn record_bytes(r: RecordView) -> Seq<u8> {
    text_field(r.sender) + opt_content_bytes(r.content) + opt_timestamp_bytes(r.timestamp)
}

/// The record that carries a message.
pub open spec fn record_of(m: MessageView) -> RecordView {
    RecordView { sender: m.sender, content: Some(m.content), timestamp: Some(m.timestamp) }
}

/// The bytes of a message.
pub open spec fn message_bytes(m: MessageView) -> Seq<u8> {
    record_bytes(record_of(m))
}

/// Every length field of the content fits in eight bytes.
pub open spec fn content_fits(c: ContentView) -> bool {
    match c {
        ContentView::Text(t) => encode_utf8(t).len() <= u64::MAX,
        ContentView::File(name, data) => encode_utf8(name).len() <= u64::MAX && data.len()
            <= u64::MAX,
        ContentView::Signal(_) => true,
    }
}

/// Every length field of the message fits in eight bytes.
pub open spec fn message_fits(m: MessageView) -> bool {
    encode_utf8(m.sender).len() <= u64::MAX && content_fits(m.content)
}

// ---------------------------------------------------------------------------
// The decoding, as functions from the unread bytes to a value and what follows it.

pub type Parsed<T> = Result<(T, Seq<u8>), DecodeError>;

pub open spec fn take_u8(s: Seq<u8>) -> Parsed<u8> {
    if s.len() == 0 {
        Err(DecodeError::Truncated)
    } else {
        Ok((s[0], s.drop_first()))
    }
}

pub open spec fn take_be32(s: Seq<u8>) -> Parsed<u32> {
    if s.len() < 4 {
        Err(DecodeError::Truncated)
    } else {
        Ok((be32_value(s.subrange(0, 4)), s.subrange(4, s.len() as int)))
    }
}

pub open spec fn take_raw(s: Seq<u8>) -> Parsed<Seq<u8>> {
    if s.len() < 8 {
        Err(DecodeError::Truncated)
    } else {
        let n = be_value(s.subrange(0, 8)) as int;
        if n > s.len() - 8 {
            Err(DecodeError::Truncated)
        } else {
            Ok((s.subrange(8, 8 + n), s.subrange(8 + n, s.len() as int)))
        }
    }
}

pub open spec fn take_text(s: Seq<u8>) -> Parsed<Seq<char>> {
    match take_raw(s) {
        Ok((b, rest)) => if valid_utf8(b) {
            Ok((decode_utf8(b), rest))
        } else {
            Err(DecodeError::InvalidUtf8)
        },
        Err(e) => Err(e),
    }
}

pub open spec fn take_content(s: Seq<u8>) -> Parsed<ContentView> {
    match take_u8(s) {
        Ok((tag, rest)) => if tag == TAG_TEXT {
            match take_text(rest) {
                Ok((t, rest)) => Ok((ContentView::Text(t), rest)),
                Err(e) => Err(e),
            }
        } else if tag == TAG_FILE {
            match take_text(rest) {
                Ok((name, rest)) => match take_raw(rest) {
                    Ok((data, rest)) => Ok((ContentView::File(name, data), rest)),
                    Err(e) => Err(e),
                },
                Err(e) => Err(e),
            }
        } else if tag == TAG_SIGNAL {
            match take_u8(rest) {
                Ok((code, rest)) => Ok((ContentView::Signal(code), rest)),
                Err(e) => Err(e),
            }
        } else {
            Err(DecodeError::UnknownTag)
        },
        Err(e) => Err(e),
    }
}

pub open spec fn take_opt_content(s: Seq<u8>) -> Parsed<Option<ContentView>> {
    match take_u8(s) {
        Ok((flag, rest)) => if flag == ABSENT {
            Ok((None, rest))
        } else if flag == PRESENT {
            match take_content(rest) {
                Ok((c, rest)) => Ok((Some(c), rest)),
                Err(e) => Err(e),
            }
        } else {
            Err(DecodeError::UnknownTag)
        },
        Err(e) => Err(e),
    }
}

pub open spec fn take_opt_timestamp(s: Seq<u8>) -> Parsed<Option<u32>> {
    match take_u8(s) {
        Ok((flag, rest)) => if flag == ABSENT {
            Ok((None, rest))
        } else if flag == PRESENT {
            match take_be32(rest) {
                Ok((t, rest)) => Ok((Some(t), rest)),
                Err(e) => Err(e),
            }
        } else {
            Err(DecodeError::UnknownTag)
        },
        Err(e) => Err(e),
    }
}

/// The record that a byte string holds, or why it holds none.
pub open spec fn parse_record(s: Seq<u8>) -> Result<RecordView, DecodeError> {
    match take_text(s) {
        Ok((sender, rest)) => match take_opt_content(rest) {
            Ok((content, rest)) => match take_opt_timestamp(rest) {
                Ok((timestamp, rest)) => if rest.len() == 0 {
                    Ok(RecordView { sender, content, timestamp })
                } else {
                    Err(DecodeError::TrailingBytes)
                },
                Err(e) => Err(e),
            },
            Err(e) => Err(e),
        },
        Err(e) => Err(e),
    }
}

/// The message that a byte string holds, or why it holds none.
pub open spec fn parse_message(s: Seq<u8>) -> Result<MessageView, DecodeError> {
    match parse_record(s) {
        Ok(r) => match (r.content, r.timestamp) {
            (Some(content), Some(timestamp)) => Ok(
                MessageView { sender: r.sender, content, timestamp },
            ),
            _ => Err(DecodeError::MissingField),
        },
        Err(e) => Err(e),
    }
}

// ---------------------------------------------------------------------------
// Round trips.

proof fn lemma_be32_round_trip(x: u32)
    ensures
        be32_value(be32_bytes(x)) == x,
{
    let b0 = ((x >> 24) & 0xff) as u8;
    let b1 = ((x >> 16) & 0xff) as u8;
    let b2 = ((x >> 8) & 0xff) as u8;
    let b3 = (x & 0xff) as u8;
    assert(((b0 as u32) << 24 | (b1 as u32) << 16 | (b2 as u32) << 8 | (b3 as u32)) == x)
        by (bit_vector)
        requires
            b0 == ((x >> 24) & 0xff) as u8,
            b1 == ((x >> 16) & 0xff) as u8,
            b2 == ((x >> 8) & 0xff) as u8,
            b3 == (x & 0xff) as u8,
    ;
}

proof fn lemma_take_u8(x: u8, rest: Seq<u8>)
    ensures
        take_u8(seq![x] + rest) == Ok::<(u8, Seq<u8>), DecodeError>((x, rest)),
{
    assert((seq![x] + rest).drop_first() =~= rest);
}

proof fn lemma_take_be32(x: u32, rest: Seq<u8>)
    ensures
        take_be32(be32_bytes(x) + rest) == Ok::<(u32, Seq<u8>), DecodeError>((x, rest)),
{
    let s = be32_bytes(x) + rest;
    assert(s.subrange(0, 4) =~= be32_bytes(x));
    assert(s.subrange(4, s.len() as int) =~= rest);
    lemma_be32_round_trip(x);
}

proof fn lemma_take_raw(b: Seq<u8>, rest: Seq<u8>)
    requires
        b.len() <= u64::MAX,
    ensures
        take_raw(raw_field(b) + rest) == Ok::<(Seq<u8>, Seq<u8>), DecodeError>((b, rest)),
{
    let s = raw_field(b) + rest;
    lemma_be_value_of_bytes(b.len() as u64);
    assert(s.subrange(0, 8) =~= be_bytes(b.len() as u64));
    assert(s.subrange(8, 8 + b.len() as int) =~= b);
    assert(s.subrange(8 + b.len() as int, s.len() as int) =~= rest);
}

proof fn lemma_take_text(t: Seq<char>, rest: Seq<u8>)
    requires
        encode_utf8(t).len() <= u64::MAX,
    ensures
        take_text(text_field(t) + rest) == Ok::<(Seq<char>, Seq<u8>), DecodeError>((t, rest)),
{
    lemma_take_raw(encode_utf8(t), rest);
}

proof fn lemma_take_content(c: ContentView, rest: Seq<u8>)
    requires
        content_fits(c),
    ensures
        take_content(content_bytes(c) + rest) == Ok::<(ContentView, Seq<u8>), DecodeError>((c, rest)),
{
    match c {
        ContentView::Text(t) => {
            assert(content_bytes(c) + rest =~= seq![TAG_TEXT] + (text_field(t) + rest));
            lemma_take_u8(TAG_TEXT, text_field(t) + rest);
            lemma_take_text(t, rest);
        },
        ContentView::File(name, data) => {
            assert(content_bytes(c) + rest =~= seq![TAG_FILE] + (text_field(name) + (raw_field(data)
                + rest)));
            lemma_take_u8(TAG_FILE, text_field(name) + (raw_field(data) + rest));
            lemma_take_text(name, raw_field(data) + rest);
            lemma_take_raw(data, rest);
        },
        ContentView::Signal(code) => {
            assert(content_bytes(c) + rest =~= seq![TAG_SIGNAL] + (seq![code] + rest));
            lemma_take_u8(TAG_SIGNAL, seq![code] + rest);
            lemma_take_u8(code, rest);
        },
    }
}

proof fn lemma_take_opt_content(c: Option<ContentView>, rest: Seq<u8>)
    requires
        c matches Some(c) ==> content_fits(c),
    ensures
        take_opt_content(opt_content_bytes(c) + rest) == Ok::<
            (Option<ContentView>, Seq<u8>),
            DecodeError,
        >((c, rest)),
{
    match c {
        Some(x) => {
            assert(opt_content_bytes(c) + rest =~= seq![PRESENT] + (content_bytes(x) + rest));
            lemma_take_u8(PRESENT, content_bytes(x) + rest);
            lemma_take_content(x, rest);
        },
        None => {
            lemma_take_u8(ABSENT, rest);
        },
    }
}

proof fn lemma_take_opt_timestamp(t: Option<u32>, rest: Seq<u8>)
    ensures
        take_opt_timestamp(opt_timestamp_bytes(t) + rest) == Ok::<
            (Option<u32>, Seq<u8>),
            DecodeError,
        >((t, rest)),
{
    match t {
        Some(x) => {
            assert(opt_timestamp_bytes(t) + rest =~= seq![PRESENT] + (be32_bytes(x) + rest));
            lemma_take_u8(PRESENT, be32_bytes(x) + rest);
            lemma_take_be32(x, rest);
        },
        None => {
            lemma_take_u8(ABSENT, rest);
        },
    }
}

/// Decoding the bytes of a record gives back the record.
pub proof fn lemma_record_round_trip(r: RecordView)
    requires
        encode_utf8(r.sender).len() <= u64::MAX,
        r.content matches Some(c) ==> content_fits(c),
    ensures
        parse_record(record_bytes(r)) == Ok::<RecordView, DecodeError>(r),
{
    let empty = Seq::<u8>::empty();
    let b2 = opt_timestamp_bytes(r.timestamp);
    let b1 = opt_content_bytes(r.content) + b2;
    assert(record_bytes(r) =~= text_field(r.sender) + b1);
    lemma_take_text(r.sender, b1);
    lemma_take_opt_content(r.content, b2);
    assert(b2 =~= b2 + empty);
    lemma_take_opt_timestamp(r.timestamp, empty);
}

/// Decoding the encoding of a message gives back the message: for every
/// message whose length fields fit, `decode(encode(m)) == m`.
pub proof fn lemma_message_round_trip(m: MessageView)
    requires
        message_fits(m),
    ensures
        parse_message(message_bytes(m)) == Ok::<MessageView, DecodeError>(m),
{
    lemma_record_round_trip(record_of(m));
}

proof fn lemma_be32_bytes_of_value(s: Seq<u8>)
    requires
        s.len() == 4,
    ensures
        be32_bytes(be32_value(s)) == s,
{
    let x = be32_value(s);
    let (s0, s1, s2, s3) = (s[0], s[1], s[2], s[3]);
    assert(((x >> 24) & 0xff) as u8 == s0 && ((x >> 16) & 0xff) as u8 == s1 && ((x >> 8) & 0xff) as u8
        == s2 && (x & 0xff) as u8 == s3) by (bit_vector)
        requires
            x == ((s0 as u32) << 24 | (s1 as u32) << 16 | (s2 as u32) << 8 | (s3 as u32)),
    ;
    assert(be32_bytes(x) =~= s);
}

proof fn lemma_take_u8_inverse(s: Seq<u8>)
    ensures
        take_u8(s) matches Ok((x, rest)) ==> s == seq![x] + rest,
{
    if s.len() > 0 {
        assert(s =~= seq![s[0]] + s.drop_first());
    }
}

proof fn lemma_take_be32_inverse(s: Seq<u8>)
    ensures
        take_be32(s) matches Ok((x, rest)) ==> s == be32_bytes(x) + rest,
{
    if s.len() >= 4 {
        lemma_be32_bytes_of_value(s.subrange(0, 4));
        assert(s =~= s.subrange(0, 4) + s.subrange(4, s.len() as int));
    }
}

proof fn lemma_take_raw_inverse(s: Seq<u8>)
    ensures
        take_raw(s) matches Ok((b, rest)) ==> s == raw_field(b) + rest,
{
    if take_raw(s) is Ok {
        let n = be_value(s.subrange(0, 8)) as int;
        let b = s.subrange(8, 8 + n);
        lemma_be_bytes_of_value(s.subrange(0, 8));
        assert(b.len() as u64 == be_value(s.subrange(0, 8)));
        assert(s =~= s.subrange(0, 8) + b + s.subrange(8 + n, s.len() as int));
    }
}

proof fn lemma_take_text_inverse(s: Seq<u8>)
    ensures
        take_text(s) matches Ok((t, rest)) ==> s == text_field(t) + rest,
{
    lemma_take_raw_inverse(s);
    if let Ok((b, rest)) = take_raw(s) {
        if valid_utf8(b) {
            assert(encode_utf8(decode_utf8(b)) == b);
        }
    }
}

proof fn lemma_take_content_inverse(s: Seq<u8>)
    ensures
        take_content(s) matches Ok((c, rest)) ==> s == content_bytes(c) + rest,
{
    lemma_take_u8_inverse(s);
    if let Ok((tag, r1)) = take_u8(s) {
        lemma_take_text_inverse(r1);
        lemma_take_u8_inverse(r1);
        if let Ok((t, r2)) = take_text(r1) {
            lemma_take_raw_inverse(r2);
            if tag == TAG_TEXT {
                assert(s =~= seq![TAG_TEXT] + text_field(t) + r2);
            } else if tag == TAG_FILE {
                if let Ok((data, r3)) = take_raw(r2) {
                    assert(s =~= seq![TAG_FILE] + text_field(t) + raw_field(data) + r3);
                }
            }
        }
        if tag == TAG_SIGNAL {
            if let Ok((code, r2)) = take_u8(r1) {
                assert(s =~= seq![TAG_SIGNAL, code] + r2);
            }
        }
    }
}

proof fn lemma_take_opt_content_inverse(s: Seq<u8>)
    ensures
        take_opt_content(s) matches Ok((c, rest)) ==> s == opt_content_bytes(c) + rest,
{
    lemma_take_u8_inverse(s);
    if let Ok((flag, r1)) = take_u8(s) {
        lemma_take_content_inverse(r1);
        if flag == PRESENT {
            if let Ok((c, r2)) = take_content(r1) {
                assert(s =~= seq![PRESENT] + content_bytes(c) + r2);
            }
        }
    }
}

proof fn lemma_take_opt_timestamp_inverse(s: Seq<u8>)
    ensures
        take_opt_timestamp(s) matches Ok((t, rest)) ==> s == opt_timestamp_bytes(t) + rest,
{
    lemma_take_u8_inverse(s);
    if let Ok((flag, r1)) = take_u8(s) {
        lemma_take_be32_inverse(r1);
        if flag == PRESENT {
            if let Ok((t, r2)) = take_be32(r1) {
                assert(s =~= seq![PRESENT] + be32_bytes(t) + r2);
            }
        }
    }
}

/// Every byte string that decodes to a record is the encoding of that record:
/// the encoding is canonical.
pub proof fn lemma_record_canonical(s: Seq<u8>)
    ensures
        parse_record(s) matches Ok(r) ==> record_bytes(r) == s,
{
    lemma_take_text_inverse(s);
    if let Ok((sender, r1)) = take_text(s) {
        lemma_take_opt_content_inverse(r1);
        if let Ok((content, r2)) = take_opt_content(r1) {
            lemma_take_opt_timestamp_inverse(r2);
            if let Ok((timestamp, r3)) = take_opt_timestamp(r2) {
                if r3.len() == 0 {
                    let r = RecordView { sender, content, timestamp };
                    assert(s =~= record_bytes(r));
                }
            }
        }
    }
}

/// Every byte string that decodes to a message is the encoding of that message.
pub proof fn lemma_message_canonical(s: Seq<u8>)
    ensures
        parse_message(s) matches Ok(m) ==> message_bytes(m) == s,
{
    lemma_record_canonical(s);
}

// ---------------------------------------------------------------------------
// Encoding.

/// Relies on `String::from_utf8`: it accepts exactly the byte strings that are
/// valid UTF-8, and returns the text they encode.
#[verifier::external_body]
fn string_from_utf8(bytes: Vec<u8>) -> (r: Option<String>)
    ensures
        r is Some <==> valid_utf8(bytes@),
        r matches Some(s) ==> s@ == decode_utf8(bytes@),
{
    String::from_utf8(bytes).ok()
}

fn push_bytes(out: &mut Vec<u8>, b: &[u8])
    ensures
        final(out)@ == old(out)@ + b@,
{
    let mut i: usize = 0;
    while i < b.len()
        invariant
            i <= b@.len(),
            out@ == old(out)@ + b@.subrange(0, i as int),
        decreases b@.len() - i,
    {
        out.push(b[i]);
        i += 1;
        assert(out@ =~= old(out)@ + b@.subrange(0, i as int));
    }
    assert(b@.subrange(0, i as int) =~= b@);
}

fn push_be32(out: &mut Vec<u8>, x: u32)
    ensures
        final(out)@ == old(out)@ + be32_bytes(x),
{
    out.push(((x >> 24) & 0xff) as u8);
    out.push(((x >> 16) & 0xff) as u8);
    out.push(((x >> 8) & 0xff) as u8);
    out.push((x & 0xff) as u8);
    assert(final(out)@ =~= old(out)@ + be32_bytes(x));
}

fn push_raw(out: &mut Vec<u8>, b: &[u8])
    ensures
        final(out)@ == old(out)@ + raw_field(b@),
{
    push_be_u64(out, b.len() as u64);
    push_bytes(out, b);
    assert(final(out)@ =~= old(out)@ + raw_field(b@));
}

fn push_text(out: &mut Vec<u8>, s: &str)
    ensures
        final(out)@ == old(out)@ + text_field(s@),
{
    push_raw(out, s.as_bytes());
}

fn push_content(out: &mut Vec<u8>, c: &Content)
    ensures
        final(out)@ == old(out)@ + content_bytes(c@),
{
    match c {
        Content::Text(t) => {
            out.push(TAG_TEXT);
            push_text(out, t.as_str());
        },
        Content::File(f) => {
            out.push(TAG_FILE);
            push_text(out, f.name.as_str());
            push_raw(out, f.data.as_slice());
        },
        Content::Signal(code) => {
            out.push(TAG_SIGNAL);
            out.push(*code);
        },
    }
    assert(final(out)@ =~= old(out)@ + content_bytes(c@));
}

fn push_record(out: &mut Vec<u8>, sender: &str, content: Option<&Content>, timestamp: Option<u32>)
    ensures
        final(out)@ == old(out)@ + record_bytes(
            RecordView {
                sender: sender@,
                content: match content {
                    Some(c) => Some(c@),
                    None => None,
                },
                timestamp,
            },
        ),
{
    push_text(out, sender);
    match content {
        Some(c) => {
            out.push(PRESENT);
            push_content(out, c);
        },
        None => out.push(ABSENT),
    }
    match timestamp {
        Some(t) => {
            out.push(PRESENT);
            push_be32(out, t);
        },
        None => out.push(ABSENT),
    }
    let ghost r = RecordView {
        sender: sender@,
        content: match content {
            Some(c) => Some(c@),
            None => None,
        },
        timestamp,
    };
    assert(final(out)@ =~= old(out)@ + record_bytes(r));
}

impl ChatMessage {
    /// The bytes of this record.
    pub fn serialize(&self) -> (r: Vec<u8>)
        ensures
            r@ == record_bytes(self@),
    {
        let mut out: Vec<u8> = Vec::new();
        let content = match &self.content {
            Some(c) => Some(c),
            None => None,
        };
        push_record(&mut out, self.sender.as_str(), content, self.timestamp);
        assert(out@ =~= record_bytes(self@));
        out
    }
}

impl Message {
    /// The bytes of this message: a record with its content and timestamp present.
    pub fn as_bytes(&self) -> (r: Vec<u8>)
        ensures
            r@ == message_bytes(self@),
    {
        let mut out: Vec<u8> = Vec::new();
        push_record(&mut out, self.sender.as_str(), Some(&self.content), Some(self.timestamp));
        assert(out@ =~= message_bytes(self@));
        out
    }
}

// ---------------------------------------------------------------------------
// Decoding.

/// The bytes of `b` from `pos` on.
pub open spec fn rest_of(b: Seq<u8>, pos: int) -> Seq<u8> {
    b.subrange(pos, b.len() as int)
}

/// `r` is what a parser over the unread bytes gives, with values seen through `view`.
pub open spec fn reads_as<T, V>(
    r: Result<(T, usize), DecodeError>,
    b: Seq<u8>,
    pos: int,
    expected: Parsed<V>,
    view: spec_fn(T) -> V,
) -> bool {
    match r {
        Ok((v, p)) => pos <= p <= b.len() && expected == Ok::<(V, Seq<u8>), DecodeError>(
            (view(v), rest_of(b, p as int)),
        ),
        Err(e) => expected == Err::<(V, Seq<u8>), DecodeError>(e),
    }
}

fn read_u8(b: &[u8], pos: usize) -> (r: Result<(u8, usize), DecodeError>)
    requires
        pos <= b@.len(),
    ensures
        reads_as(r, b@, pos as int, take_u8(rest_of(b@, pos as int)), |x: u8| x),
{
    if pos < b.len() {
        assert(rest_of(b@, pos as int).drop_first() =~= rest_of(b@, pos + 1));
        Ok((b[pos], pos + 1))
    } else {
        Err(DecodeError::Truncated)
    }
}

fn read_be32(b: &[u8], pos: usize) -> (r: Result<(u32, usize), DecodeError>)
    requires
        pos <= b@.len(),
    ensures
        reads_as(r, b@, pos as int, take_be32(rest_of(b@, pos as int)), |x: u32| x),
{
    if b.len() - pos < 4 {
        Err(DecodeError::Truncated)
    } else {
        let ghost s = rest_of(b@, pos as int);
        assert(s.subrange(0, 4) =~= b@.subrange(pos as int, pos + 4));
        assert(s.subrange(4, s.len() as int) =~= rest_of(b@, pos + 4));
        let x = (b[pos] as u32) << 24 | (b[pos + 1] as u32) << 16 | (b[pos + 2] as u32) << 8 | (b[pos
            + 3] as u32);
        Ok((x, pos + 4))
    }
}

fn read_raw(b: &[u8], pos: usize) -> (r: Result<(Vec<u8>, usize), DecodeError>)
    requires
        pos <= b@.len(),
    ensures
        reads_as(r, b@, pos as int, take_raw(rest_of(b@, pos as int)), |v: Vec<u8>| v@),
{
    let ghost s = rest_of(b@, pos as int);
    if b.len() - pos < 8 {
        return Err(DecodeError::Truncated);
    }
    let n = read_be_u64(b, pos);
    assert(s.subrange(0, 8) =~= b@.subrange(pos as int, pos + 8));
    if n > (b.len() - pos - 8) as u64 {
        return Err(DecodeError::Truncated);
    }
    let start = pos + 8;
    let end = start + n as usize;
    let data = vstd::slice::slice_to_vec(vstd::slice::slice_subrange(b, start, end));
    assert(s.subrange(8, 8 + n as int) =~= data@);
    assert(s.subrange(8 + n as int, s.len() as int) =~= rest_of(b@, end as int));
    Ok((data, end))
}

fn read_text(b: &[u8], pos: usize) -> (r: Result<(String, usize), DecodeError>)
    requires
        pos <= b@.len(),
    ensures
        reads_as(r, b@, pos as int, take_text(rest_of(b@, pos as int)), |v: String| v@),
{
    match read_raw(b, pos) {
        Ok((raw, p)) => match string_from_utf8(raw) {
            Some(t) => Ok((t, p)),
            None => Err(DecodeError::InvalidUtf8),
        },
        Err(e) => Err(e),
    }
}

fn read_content(b: &[u8], pos: usize) -> (r: Result<(Content, usize), DecodeError>)
    requires
        pos <= b@.len(),
    ensures
        reads_as(r, b@, pos as int, take_content(rest_of(b@, pos as int)), |v: Content| v@),
{
    let (tag, p) = match read_u8(b, pos) {
        Ok(x) => x,
        Err(e) => return Err(e),
    };
    if tag == TAG_TEXT {
        match read_text(b, p) {
            Ok((t, p)) => Ok((Content::Text(t), p)),
            Err(e) => Err(e),
        }
    } else if tag == TAG_FILE {
        let (name, p) = match read_text(b, p) {
            Ok(x) => x,
            Err(e) => return Err(e),
        };
        match read_raw(b, p) {
            Ok((data, p)) => Ok((Content::File(FileData { data, name }), p)),
            Err(e) => Err(e),
        }
    } else if tag == TAG_SIGNAL {
        match read_u8(b, p) {
            Ok((code, p)) => Ok((Content::Signal(code), p)),
            Err(e) => Err(e),
        }
    } else {
        Err(DecodeError::UnknownTag)
    }
}

fn read_opt_content(b: &[u8], pos: usize) -> (r: Result<(Option<Content>, usize), DecodeError>)
    requires
        pos <= b@.len(),
    ensures
        reads_as(
            r,
            b@,
            pos as int,
            take_opt_content(rest_of(b@, pos as int)),
            |v: Option<Content>|
                match v {
                    Some(c) => Some(c@),
                    None => None,
                },
        ),
{
    let (flag, p) = match read_u8(b, pos) {
        Ok(x) => x,
        Err(e) => return Err(e),
    };
    if flag == ABSENT {
        Ok((None, p))
    } else if flag == PRESENT {
        match read_content(b, p) {
            Ok((c, p)) => Ok((Some(c), p)),
            Err(e) => Err(e),
        }
    } else {
        Err(DecodeError::UnknownTag)
    }
}

fn read_opt_timestamp(b: &[u8], pos: usize) -> (r: Result<(Option<u32>, usize), DecodeError>)
    requires
        pos <= b@.len(),
    ensures
        reads_as(r, b@, pos as int, take_opt_timestamp(rest_of(b@, pos as int)), |v: Option<u32>| v),
{
    let (flag, p) = match read_u8(b, pos) {
        Ok(x) => x,
        Err(e) => return Err(e),
    };
    if flag == ABSENT {
        Ok((None, p))
    } else if flag == PRESENT {
        match read_be32(b, p) {
            Ok((t, p)) => Ok((Some(t), p)),
            Err(e) => Err(e),
        }
    } else {
        Err(DecodeError::UnknownTag)
    }
}

impl ChatMessage {
    /// The record held by `bytes`, or why they hold none.
    pub fn deserialize(bytes: &[u8]) -> (r: Result<ChatMessage, DecodeError>)
        ensures
            match r {
                Ok(m) => parse_record(bytes@) == Ok::<RecordView, DecodeError>(m@),
                Err(e) => parse_record(bytes@) == Err::<RecordView, DecodeError>(e),
            },
    {
        assert(rest_of(bytes@, 0) =~= bytes@);
        let (sender, p) = match read_text(bytes, 0) {
            Ok(x) => x,
            Err(e) => return Err(e),
        };
        let (content, p) = match read_opt_content(bytes, p) {
            Ok(x) => x,
            Err(e) => return Err(e),
        };
        let (timestamp, p) = match read_opt_timestamp(bytes, p) {
            Ok(x) => x,
            Err(e) => return Err(e),
        };
        if p < bytes.len() {
            Err(DecodeError::TrailingBytes)
        } else {
            Ok(ChatMessage { sender, content, timestamp })
        }
    }
}

impl Message {
    /// The message held by `bytes`, or why they hold none.
    pub fn from_bytes(bytes: &[u8]) -> (r: Result<Message, DecodeError>)
        ensures
            match r {
                Ok(m) => parse_message(bytes@) == Ok::<MessageView, DecodeError>(m@),
                Err(e) => parse_message(bytes@) == Err::<MessageView, DecodeError>(e),
            },
    {
        match ChatMessage::deserialize(bytes) {
            Ok(record) => match (record.content, record.timestamp) {
                (Some(content), Some(timestamp)) => Ok(
                    Message { sender: record.sender, content, timestamp },
                ),
                _ => Err(DecodeError::MissingField),
            },
            Err(e) => Err(e),
        }
    }
}

} // verus!
