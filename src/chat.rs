//! Chat relay messages.
use vstd::prelude::*;
use crate::clipboard::{sender_label, sender_label_of};

verus! {

/// TCP port of the chat relay.
pub const CHAT_PORT: u16 = 7879;

/// A chat message.
pub struct ChatMessage {
    pub content: String,
    pub from_ip: String,
    /// Milliseconds since the Unix epoch when it was sent.
    pub timestamp: i64,
}

impl ChatMessage {
    /// The message that sends `content` from this instance.
    pub fn outgoing(content: String, local_ip: Option<String>, timestamp: i64) -> (r: ChatMessage)
        ensures
            r.content == content,
            r.from_ip@ == sender_label(match local_ip {
                Some(s) => Some(s@),
                None => None,
            }),
            r.timestamp == timestamp,
    {
        ChatMessage { content, from_ip: sender_label_of(local_ip), timestamp }
    }
}

} // verus!
