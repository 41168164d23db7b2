//! Slack adapter: identity, message types and configuration checks.

use vstd::prelude::*;

verus! {

/// Slack workspace identity configuration.
#[derive(Debug, Clone)]
pub struct SlackIdentity {
    /// Slack Bot Token (xoxb-...)
    pub bot_token: String,
    /// App-level Token for Socket Mode (xapp-...)
    pub app_token: String,
    /// Unique identity ID.
    pub id: String,
    /// Workspace name.
    pub workspace: Option<String>,
}

/// Inbound message from Slack.
#[derive(Debug, Clone)]
pub struct SlackInboundMessage {
    pub channel: String,
    pub identity_id: String,
    pub peer_id: String,
    pub text: String,
    pub thread_ts: Option<String>,
    pub from_me: bool,
}

/// Outbound message to Slack.
#[derive(Debug, Clone)]
pub struct SlackOutboundMessage {
    pub peer_id: String,
    pub text: String,
    pub thread_ts: Option<String>,
}

/// Maximum text length for Slack messages.
pub const MAX_TEXT_LENGTH: usize = 40_000;

/// Slack adapter.
pub struct SlackAdapter {
    identity: SlackIdentity,
}

impl SlackAdapter {
    /// The identity this adapter was built with.
    pub closed spec fn identity(&self) -> SlackIdentity {
        self.identity
    }

    pub fn new(identity: SlackIdentity) -> (r: Self)
        ensures
            r.identity() == identity,
    {
        Self { identity }
    }

    /// Get the identity ID.
    pub fn identity_id(&self) -> (r: &str)
        ensures
            r@ == self.identity().id@,
    {
        self.identity.id.as_str()
    }

    /// Validate the adapter configuration: both tokens must be present,
    /// the bot token being checked first.
    pub fn validate(&self) -> (r: Result<(), String>)
        ensures
            r is Ok <==> (self.identity().bot_token@.len() > 0 && self.identity().app_token@.len()
                > 0),
            r matches Err(m) ==> m@ == (if self.identity().bot_token@.len() == 0 {
                "Slack bot token is required"@
            } else {
                "Slack app token is required"@
            }),
    {
        if self.identity.bot_token.as_str().is_empty() {
            return Err("Slack bot token is required".to_string());
        }
        if self.identity.app_token.as_str().is_empty() {
            return Err("Slack app token is required".to_string());
        }
        Ok(())
    }
}

} // verus!
