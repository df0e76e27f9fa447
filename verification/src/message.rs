//! What the bot reads of a Discord message and of its attachments.
use vstd::prelude::*;

verus! {

/// A file attached to a message.
pub struct AttachmentInfo {
    pub id: u64,
    pub filename: String,
    pub url: String,
    pub proxy_url: String,
    pub content_type: Option<String>,
    pub size: u32,
    pub width: Option<u32>,
    pub height: Option<u32>,
}

/// A message as the bot sees it.
pub struct MessageInfo {
    pub id: u64,
    pub guild_id: Option<u64>,
    pub channel_id: u64,
    pub author_id: u64,
    pub author_name: String,
    pub author_is_bot: bool,
    pub from_webhook: bool,
    pub content: String,
    /// When the message was sent, in seconds since the Unix epoch.
    pub created_at: i64,
    pub attachments: Vec<AttachmentInfo>,
}

} // verus!
