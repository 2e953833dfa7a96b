//! Chat records: who sent them, what they carry, and when they were made.

use vstd::prelude::*;
use crate::clock;
use crate::text::{decimal, decimal_text};

verus! {

/// A transferred file: its display name and its bytes.
#[derive(Debug, PartialEq, Eq)]
pub struct FileData {
    pub data: Vec<u8>,
    pub name: String,
}

/// What a message carries.
#[derive(Debug, PartialEq, Eq)]
pub enum Content {
    /// A plain-text body.
    Text(String),
    /// A file with its name and payload.
    File(FileData),
    /// A control code; `0` is a heartbeat.
    Signal(u8),
}

/// One chat record.
#[derive(Debug, PartialEq, Eq)]
pub struct Message {
    pub sender: String,
    pub content: Content,
    /// Seconds since the epoch, set by the originator.
    pub timestamp: u32,
}

/// The mathematical value of a `Content`.
pub enum ContentView {
    Text(Seq<char>),
    File(Seq<char>, Seq<u8>),
    Signal(u8),
}

/// The mathematical value of a `Message`.
pub struct MessageView {
    pub sender: Seq<char>,
    pub content: ContentView,
    pub timestamp: u32,
}

impl View for FileData {
    type V = (Seq<char>, Seq<u8>);

    open spec fn view(&self) -> (Seq<char>, Seq<u8>) {
        (self.name@, self.data@)
    }
}

impl View for Content {
    type V = ContentView;

    open spec fn view(&self) -> ContentView {
        match self {
            Content::Text(t) => ContentView::Text(t@),
            Content::File(f) => ContentView::File(f.name@, f.data@),
            Content::Signal(c) => ContentView::Signal(*c),
        }
    }
}

impl View for Message {
    type V = MessageView;

    open spec fn view(&self) -> MessageView {
        MessageView { sender: self.sender@, content: self.content@, timestamp: self.timestamp }
    }
}

/// Copies a byte vector element by element.
fn copy_bytes(b: &[u8]) -> (r: Vec<u8>)
    ensures
        r@ == b@,
{
    let mut r: Vec<u8> = Vec::with_capacity(b.len());
    let mut i: usize = 0;
    while i < b.len()
        invariant
            i <= b@.len(),
            r@ == b@.subrange(0, i as int),
        decreases b@.len() - i,
    {
        r.push(b[i]);
        i += 1;
    }
    assert(r@ =~= b@);
    r
}

impl Clone for FileData {
    fn clone(&self) -> (r: Self)
        ensures
            r@ == self@,
    {
        FileData { data: copy_bytes(self.data.as_slice()), name: self.name.clone() }
    }
}

impl Clone for Content {
    fn clone(&self) -> (r: Self)
        ensures
            r@ == self@,
    {
        match self {
            Content::Text(t) => Content::Text(t.clone()),
            Content::File(f) => Content::File(f.clone()),
            Content::Signal(c) => Content::Signal(*c),
        }
    }
}

impl Clone for Message {
    fn clone(&self) -> (r: Self)
        ensures
            r@ == self@,
    {
        Message { sender: self.sender.clone(), content: self.content.clone(), timestamp: self.timestamp }
    }
}

impl Default for Content {
    fn default() -> (r: Self)
        ensures
            r@ == ContentView::Text(Seq::empty()),
    {
        Content::Text(String::new())
    }
}

impl Content {
    /// A text body holding a copy of `value`.
    pub fn from_text(value: &str) -> (r: Content)
        ensures
            r@ == ContentView::Text(value@),
    {
        Content::Text(value.to_owned())
    }
}

impl Message {
    /// A text message from `from`, stamped with the current time.
    pub fn from(msg: &str, from: &String) -> (r: Message)
        ensures
            r.sender@ == from@,
            r.content@ == ContentView::Text(msg@),
    {
        Message { sender: from.clone(), content: Content::from_text(msg), timestamp: clock::now_secs() }
    }

    /// A file message from `from`, stamped with the current time.
    pub fn from_file(file_data: Vec<u8>, file_name: String, from: &String) -> (r: Message)
        ensures
            r.sender@ == from@,
            r.content@ == ContentView::File(file_name@, file_data@),
    {
        Message {
            sender: from.clone(),
            content: Content::File(FileData { data: file_data, name: file_name }),
            timestamp: clock::now_secs(),
        }
    }

    /// A control signal from `from`, stamped with the current time.
    pub fn from_code(code: u8, from: &String) -> (r: Message)
        ensures
            r.sender@ == from@,
            r.content@ == ContentView::Signal(code),
    {
        Message { sender: from.clone(), content: Content::Signal(code), timestamp: clock::now_secs() }
    }
}

/// How a message is shown, after the time at which it was made.
pub open spec fn describe_spec(m: MessageView, time: Seq<char>) -> Seq<char> {
    let head = time + " | "@ + m.sender;
    match m.content {
        ContentView::Text(t) => head + " : "@ + t,
        ContentView::File(name, _) => head + " : Sent file => "@ + name,
        ContentView::Signal(code) => if code == 0 || code == 1 {
            head + " is still alive!"@
        } else {
            head + " sent a signal which is still not implemented!"@
        },
    }
}

/// How a content is shown on its own.
pub open spec fn content_text(c: ContentView) -> Seq<char> {
    match c {
        ContentView::Text(t) => t,
        ContentView::File(_, _) => "[File content]"@,
        ContentView::Signal(code) => "Signal: code "@ + decimal_text(code),
    }
}

impl Message {
    /// The line that shows this message, given the text of its time.
    pub fn describe(&self, time: &str) -> (r: String)
        ensures
            r@ == describe_spec(self@, time@),
    {
        let head = time.to_owned().concat(" | ").concat(self.sender.as_str());
        match &self.content {
            Content::Text(t) => head.concat(" : ").concat(t.as_str()),
            Content::File(f) => head.concat(" : Sent file => ").concat(f.name.as_str()),
            Content::Signal(code) => {
                if *code == 0 || *code == 1 {
                    head.concat(" is still alive!")
                } else {
                    head.concat(" sent a signal which is still not implemented!")
                }
            },
        }
    }
}

impl Content {
    /// The text that shows this content on its own.
    pub fn describe(&self) -> (r: String)
        ensures
            r@ == content_text(self@),
    {
        match self {
            Content::Text(t) => t.clone(),
            Content::File(_) => "[File content]".to_owned(),
            Content::Signal(code) => "Signal: code ".to_owned().concat(decimal(*code).as_str()),
        }
    }
}

} // verus!
