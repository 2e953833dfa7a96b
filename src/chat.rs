//! The chat record of the protocol-buffer schema: a text and its kind.

use vstd::prelude::*;
use crate::text::text_eq;

verus! {

/// A chat record as the protocol-buffer schema describes it.
pub struct ChatMessage {
    pub content: String,
    /// A `MessageType`, as its wire number.
    pub kind: i32,
}

/// Whether a message is addressed to one participant or to all.
#[derive(Clone, Copy, Debug, PartialEq, Eq, Structural, Hash, PartialOrd, Ord)]
pub enum MessageType {
    Private,
    Public,
}

/// The schema's name of a message type.
pub open spec fn schema_name(t: MessageType) -> Seq<char> {
    match t {
        MessageType::Private => "PRIVATE"@,
        MessageType::Public => "PUBLIC"@,
    }
}

impl MessageType {
    /// The name of this value in the schema.
    pub fn as_str_name(&self) -> (r: &'static str)
        ensures
            r@ == schema_name(*self),
    {
        match self {
            MessageType::Private => "PRIVATE",
            MessageType::Public => "PUBLIC",
        }
    }

    /// The value that a schema name denotes, if any.
    pub fn from_str_name(value: &str) -> (r: Option<MessageType>)
        ensures
            r == (if value@ == schema_name(MessageType::Private) {
                Some(MessageType::Private)
            } else if value@ == schema_name(MessageType::Public) {
                Some(MessageType::Public)
            } else {
                None
            }),
    {
        if text_eq(value, "PRIVATE") {
            Some(MessageType::Private)
        } else if text_eq(value, "PUBLIC") {
            Some(MessageType::Public)
        } else {
            None
        }
    }
}

} // verus!
