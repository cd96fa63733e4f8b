//! The request that delivers a message to one channel.

use crate::json::{json_object_text, object_text};
use crate::text::{format_int, int_text};
use vstd::prelude::*;

verus! {

/// One request to the remote service, ready to be sent.
#[derive(Debug, PartialEq, Eq)]
pub struct DeliveryRequest {
    /// The request method.
    pub method: String,
    /// The address of the channel's messages.
    pub uri: String,
    /// The value of the header `Authorization`.
    pub authorization: String,
    /// The value of the header `Content-Type`.
    pub content_type: String,
    /// The value of the header `User-Agent`.
    pub user_agent: String,
    /// The body: a JSON object that holds the message.
    pub body: String,
}

/// The address to which a message for `channel_id` is posted.
pub open spec fn message_uri(channel_id: i64) -> Seq<char> {
    "https://discord.com/api/v8/channels/"@ + int_text(channel_id as int) + "/messages"@
}

impl DeliveryRequest {
    /// Whether `self` is the request that delivers `message_content` to
    /// `channel_id` under the credential `bot_token`.
    pub open spec fn delivers(self, bot_token: Seq<char>, message_content: Seq<char>, channel_id: i64)
        -> bool {
        &&& self.method@ == "POST"@
        &&& self.uri@ == message_uri(channel_id)
        &&& self.authorization@ == "Bot "@ + bot_token
        &&& self.content_type@ == "application/json"@
        &&& self.user_agent@ == "JohnWickBot(https://wickshopbot.com, 0.1)"@
        &&& self.body@ == json_object_text("content"@, message_content)
    }
}

/// Builds the request that delivers `message_content` to `channel_id`.
pub fn build_request(bot_token: &str, message_content: &str, channel_id: i64) -> (r:
    DeliveryRequest)
    ensures
        r.delivers(bot_token@, message_content@, channel_id),
{
    let id: String = format_int(channel_id);
    let uri: String = String::from_str("https://discord.com/api/v8/channels/").concat(
        id.as_str(),
    ).concat("/messages");
    DeliveryRequest {
        method: String::from_str("POST"),
        uri,
        authorization: String::from_str("Bot ").concat(bot_token),
        content_type: String::from_str("application/json"),
        user_agent: String::from_str("JohnWickBot(https://wickshopbot.com, 0.1)"),
        body: object_text("content", message_content),
    }
}

} // verus!
