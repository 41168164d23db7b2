//! Telegram adapter: identity, message types and configuration checks.

use vstd::prelude::*;
use crate::strutil::{all_ascii_digits, range_all_digits, trim_bounds, trim_spec};
use crate::unicode::chars_of;
use bytes::Bytes;

verus! {

/// Telegram channel identity configuration.
#[derive(Debug, Clone)]
pub struct TelegramIdentity {
    /// Bot token from @BotFather.
    pub token: String,
    /// Unique identity ID.
    pub id: String,
    /// Display name.
    pub name: Option<String>,
}

/// Inbound message from Telegram.
#[derive(Debug, Clone)]
pub struct TelegramInboundMessage {
    pub channel: String,
    pub identity_id: String,
    pub peer_id: String,
    pub text: String,
    pub from_me: bool,
}

/// Outbound message to Telegram.
#[derive(Debug, Clone)]
pub struct TelegramOutboundMessage {
    pub peer_id: String,
    pub text: String,
    pub reply_to: Option<i64>,
}

/// Media types supported by Telegram.
#[derive(Debug, Clone, Copy, PartialEq, Eq, Structural)]
pub enum TelegramMediaKind {
    Text,
    Photo,
    Document,
    Voice,
    Video,
    Audio,
}

/// Maximum text length for Telegram messages.
pub const MAX_TEXT_LENGTH: usize = 4096;

/// What `is_telegram_peer_id` decides: after trimming whitespace, the id is
/// an optional `-` followed by at least one ASCII digit, and nothing else.
pub open spec fn telegram_peer_id_shape(s: Seq<char>) -> bool {
    let t = trim_spec(s);
    let d = if t.len() > 0 && t[0] == '-' { t.drop_first() } else { t };
    d.len() > 0 && all_ascii_digits(d)
}

/// Check if a peer ID looks like a Telegram chat ID.
pub fn is_telegram_peer_id(peer_id: &str) -> (r: bool)
    ensures
        r == telegram_peer_id_shape(peer_id@),
{
    let cs = chars_of(peer_id);
    let (a, b) = trim_bounds(&cs);
    let ghost t = cs@.subrange(a as int, b as int);
    let start = if a < b && cs[a] == '-' {
        assert(t.drop_first() =~= cs@.subrange(a + 1, b as int));
        a + 1
    } else {
        assert(t =~= cs@.subrange(a as int, b as int));
        a
    };
    start < b && range_all_digits(&cs, start, b)
}

/// Telegram adapter.
pub struct TelegramAdapter {
    identity: TelegramIdentity,
}

impl TelegramAdapter {
    /// The identity this adapter was built with.
    pub closed spec fn identity(&self) -> TelegramIdentity {
        self.identity
    }

    pub fn new(identity: TelegramIdentity) -> (r: Self)
        ensures
            r.identity() == identity,
    {
        Self { identity }
    }

    /// Get the identity ID.
    pub fn identity_id(&self) -> (r: &str)
        ensures
            r@ == self.identity().id@,
    {
        self.identity.id.as_str()
    }

    /// Validate the adapter configuration: the token must not be empty.
    pub fn validate(&self) -> (r: Result<(), String>)
        ensures
            r is Ok <==> self.identity().token@.len() > 0,
            r matches Err(m) ==> m@ == "Telegram token is required"@,
    {
        if self.identity.token.as_str().is_empty() {
            return Err("Telegram token is required".to_string());
        }
        Ok(())
    }
}

/// An inbound message received from Telegram.
#[derive(Debug, Clone)]
pub struct InboundMessage {
    /// Platform-specific message ID.
    pub message_id: i64,
    /// Chat this message belongs to.
    pub chat_id: i64,
    /// Sender user ID.
    pub user_id: Option<i64>,
    /// Text content if present.
    pub text: Option<String>,
    /// Reply-to message ID for threading.
    pub reply_to_message_id: Option<i64>,
    /// Media attachments.
    pub media: Vec<InboundMedia>,
}

/// Inbound media attachment types.
#[derive(Debug, Clone)]
pub enum InboundMedia {
    Photo { file_id: String, caption: Option<String> },
    Document { file_id: String, file_name: Option<String>, caption: Option<String> },
    Voice { file_id: String, duration: Option<u32> },
    Video { file_id: String, caption: Option<String> },
}

/// An outbound message to deliver to Telegram.
#[derive(Debug, Clone)]
pub struct OutboundMessage {
    /// Target chat ID.
    pub chat_id: i64,
    /// Text to send (may be chunked).
    pub text: String,
    /// Optional reply-to for threading.
    pub reply_to_message_id: Option<i64>,
    /// Parse mode for formatting.
    pub parse_mode: ParseMode,
}

/// Telegram message parse mode.
#[derive(Debug, Clone, Copy, PartialEq, Eq, Structural)]
pub enum ParseMode {
    /// No formatting.
    Plain,
    /// MarkdownV2 formatting.
    MarkdownV2,
    /// HTML formatting.
    Html,
}

impl Default for ParseMode {
    fn default() -> (r: Self)
        ensures
            r == ParseMode::Plain,
    {
        ParseMode::Plain
    }
}

/// An outbound media message.
#[derive(Debug, Clone)]
pub enum OutboundMedia {
    /// Send a photo by file_id or URL.
    Photo { file_id_or_url: String, caption: Option<String> },
    /// Send a document by file_id or URL.
    Document { file_id_or_url: String, caption: Option<String> },
    /// Send raw bytes as a document upload.
    DocumentUpload { file_name: String, data: Bytes, caption: Option<String> },
}

} // verus!
