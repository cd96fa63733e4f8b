//! The chat side of the bot: its commands, its replies and its errors.

use crate::client::{bytes_equal, text_equals};
use crate::db::DBErr;
use crate::text::{format_int, format_nat, int_text, nat_text};
use vstd::prelude::*;
use vstd::slice::slice_subrange;
use vstd::utf8::{encode_utf8, is_char_boundary};

verus! {

/// An error of the chat side, carried as the text to report.
#[derive(Debug, PartialEq, Eq)]
pub struct JWError {
    pub msg: String,
}

impl JWError {
    /// An error with the given text.
    pub fn new(msg: &str) -> (e: Self)
        ensures
            e.msg@ == msg@,
    {
        Self { msg: String::from_str(msg) }
    }

    /// The error that stands for a failure of the subscriber store.
    pub fn from_db(e: DBErr) -> (r: Self)
        ensures
            r.msg@ == e.message_text(),
    {
        let _ = e;
        Self::new("Database Error")
    }

    /// The text under which the error is reported.
    pub fn to_text(&self) -> (text: String)
        ensures
            text@ == "JW Error: "@ + self.msg@,
    {
        String::from_str("JW Error: ").concat(self.msg.as_str())
    }
}

/// The user who may refresh the shop and start a broadcast.
pub const OWNER_ID: u64 = 229419335930609664;

/// What a chat message asks the bot to do.
#[derive(Debug, PartialEq, Eq)]
pub enum Command {
    /// Show today's shop.
    Shop,
    /// Subscribe the channel to broadcasts.
    Subscribe,
    /// End the channel's subscription.
    Unsubscribe,
    /// Show the help text.
    Help,
    /// Have the shop server refresh its image.
    Refresh,
    /// Broadcast `message` to every subscribed channel.
    Broadcast { message: String },
    /// Nothing: the message is no command.
    Nothing,
}

/// A [`Command`] without what it carries.
#[derive(Clone, Copy, Debug, PartialEq, Eq, Structural)]
pub enum CommandKind {
    Shop,
    Subscribe,
    Unsubscribe,
    Help,
    Refresh,
    Broadcast,
    Nothing,
}

impl Command {
    /// The kind of this command.
    pub open spec fn kind_spec(self) -> CommandKind {
        match self {
            Command::Shop => CommandKind::Shop,
            Command::Subscribe => CommandKind::Subscribe,
            Command::Unsubscribe => CommandKind::Unsubscribe,
            Command::Help => CommandKind::Help,
            Command::Refresh => CommandKind::Refresh,
            Command::Broadcast { .. } => CommandKind::Broadcast,
            Command::Nothing => CommandKind::Nothing,
        }
    }

    /// The kind of this command.
    pub fn kind(&self) -> (k: CommandKind)
        ensures
            k == self.kind_spec(),
    {
        match self {
            Command::Shop => CommandKind::Shop,
            Command::Subscribe => CommandKind::Subscribe,
            Command::Unsubscribe => CommandKind::Unsubscribe,
            Command::Help => CommandKind::Help,
            Command::Refresh => CommandKind::Refresh,
            Command::Broadcast { .. } => CommandKind::Broadcast,
            Command::Nothing => CommandKind::Nothing,
        }
    }
}

/// Whether `content` is a broadcast command: the word `!broadcast`, one
/// more byte of any value, and from the twelfth byte on the message, which
/// may be empty.
pub open spec fn is_broadcast(content: Seq<char>) -> bool {
    let bytes = encode_utf8(content);
    &&& bytes.len() >= 11
    &&& bytes.take(10) == encode_utf8("!broadcast"@)
    &&& is_char_boundary(bytes, 11)
}

/// What `content`, written by `author_id`, asks for. The four public
/// commands are open to everyone, the other two to the owner alone, and
/// every command must match to the letter.
pub open spec fn command_kind(content: Seq<char>, author_id: u64) -> CommandKind {
    if content == "!shop"@ {
        CommandKind::Shop
    } else if content == "!subscribe"@ {
        CommandKind::Subscribe
    } else if content == "!unsubscribe"@ {
        CommandKind::Unsubscribe
    } else if content == "!help"@ {
        CommandKind::Help
    } else if author_id == OWNER_ID && content == "!refresh"@ {
        CommandKind::Refresh
    } else if author_id == OWNER_ID && is_broadcast(content) {
        CommandKind::Broadcast
    } else {
        CommandKind::Nothing
    }
}

/// Reads a chat message as a command.
pub fn parse_command(content: &str, author_id: u64) -> (c: Command)
    ensures
        c.kind_spec() == command_kind(content@, author_id),
        c matches Command::Broadcast { message } ==> encode_utf8(message@) == encode_utf8(
            content@,
        ).skip(11),
{
    if text_equals(content, "!shop") {
        Command::Shop
    } else if text_equals(content, "!subscribe") {
        Command::Subscribe
    } else if text_equals(content, "!unsubscribe") {
        Command::Unsubscribe
    } else if text_equals(content, "!help") {
        Command::Help
    } else if author_id != OWNER_ID {
        Command::Nothing
    } else if text_equals(content, "!refresh") {
        Command::Refresh
    } else {
        let bytes: &[u8] = content.as_bytes();
        if bytes.len() >= 11 && bytes_equal(
            slice_subrange(bytes, 0, 10),
            "!broadcast".as_bytes(),
        ) && content.is_char_boundary(11) {
            let (_, rest) = content.split_at(11);
            assert(encode_utf8(content@).subrange(11, encode_utf8(content@).len() as int)
                =~= encode_utf8(content@).skip(11));
            Command::Broadcast { message: rest.to_owned() }
        } else {
            Command::Nothing
        }
    }
}

/// What the bot says in a channel.
#[derive(Clone, Copy, Debug, PartialEq, Eq, Structural)]
pub enum Reply {
    /// The author may not manage the channel's subscription.
    NoPermission,
    /// The channel is subscribed already.
    AlreadySubscribed,
    /// The channel is subscribed from now on.
    Subscribed,
    /// The channel could not be subscribed; said to the author in private.
    SubscribeFailed,
    /// The channel is not subscribed any longer.
    Unsubscribed,
    /// A broadcast asked for over the control channel has finished.
    BroadcastFinished,
}

impl Reply {
    /// The words of this reply.
    pub open spec fn text_spec(self) -> Seq<char> {
        match self {
            Reply::NoPermission => "You do not have the server permissions required to do this."@,
            Reply::AlreadySubscribed => "This channel is already subscribed."@,
            Reply::Subscribed => "Thanks! I'll let you know in this channel."@,
            Reply::SubscribeFailed =>
                "I was not able to subscribe to that channel. I may not have permissions to do so."@,
            Reply::Unsubscribed => "I'll stop sending messages here."@,
            Reply::BroadcastFinished => "Broadcast finished"@,
        }
    }

    /// The words of this reply.
    pub fn text(&self) -> (t: &'static str)
        ensures
            t@ == self.text_spec(),
    {
        match self {
            Reply::NoPermission => "You do not have the server permissions required to do this.",
            Reply::AlreadySubscribed => "This channel is already subscribed.",
            Reply::Subscribed => "Thanks! I'll let you know in this channel.",
            Reply::SubscribeFailed =>
                "I was not able to subscribe to that channel. I may not have permissions to do so.",
            Reply::Unsubscribed => "I'll stop sending messages here.",
            Reply::BroadcastFinished => "Broadcast finished",
        }
    }
}

/// What has just happened while a channel is being subscribed.
#[derive(Clone, Copy, Debug, PartialEq, Eq, Structural)]
pub enum SubscribeEvent {
    /// The command has come in.
    Asked,
    /// The author's permissions are known: whether they may manage
    /// channels.
    Permitted(bool),
    /// The store has answered: whether the channel is subscribed already.
    Known(bool),
    /// The bot has tried to say [`Reply::Subscribed`] in the channel:
    /// whether it got through.
    Announced(bool),
}

/// What is to be done next while a channel is being subscribed.
#[derive(Clone, Copy, Debug, PartialEq, Eq, Structural)]
pub enum SubscribeAction {
    /// Look up the author's permissions.
    CheckPermissions,
    /// Ask the store whether the channel is subscribed.
    CheckStore,
    /// Say [`Reply::Subscribed`] in the channel.
    Announce,
    /// Add the channel to the store; nothing follows.
    Insert,
    /// Say this in the channel; nothing follows.
    Say(Reply),
    /// Say this to the author in private; nothing follows.
    Whisper(Reply),
}

/// The next action while a channel is being subscribed. Only who may manage
/// channels may subscribe one; a channel is subscribed once; and it is
/// stored only after the bot has managed to speak in it.
pub open spec fn subscribe_step_spec(event: SubscribeEvent) -> SubscribeAction {
    match event {
        SubscribeEvent::Asked => SubscribeAction::CheckPermissions,
        SubscribeEvent::Permitted(false) => SubscribeAction::Say(Reply::NoPermission),
        SubscribeEvent::Permitted(true) => SubscribeAction::CheckStore,
        SubscribeEvent::Known(true) => SubscribeAction::Say(Reply::AlreadySubscribed),
        SubscribeEvent::Known(false) => SubscribeAction::Announce,
        SubscribeEvent::Announced(true) => SubscribeAction::Insert,
        SubscribeEvent::Announced(false) => SubscribeAction::Whisper(Reply::SubscribeFailed),
    }
}

/// Decides the next action while a channel is being subscribed.
pub fn subscribe_step(event: SubscribeEvent) -> (action: SubscribeAction)
    ensures
        action == subscribe_step_spec(event),
{
    match event {
        SubscribeEvent::Asked => SubscribeAction::CheckPermissions,
        SubscribeEvent::Permitted(allowed) => {
            if allowed {
                SubscribeAction::CheckStore
            } else {
                SubscribeAction::Say(Reply::NoPermission)
            }
        },
        SubscribeEvent::Known(subscribed) => {
            if subscribed {
                SubscribeAction::Say(Reply::AlreadySubscribed)
            } else {
                SubscribeAction::Announce
            }
        },
        SubscribeEvent::Announced(heard) => {
            if heard {
                SubscribeAction::Insert
            } else {
                SubscribeAction::Whisper(Reply::SubscribeFailed)
            }
        },
    }
}

/// What has just happened while a subscription is being ended.
#[derive(Clone, Copy, Debug, PartialEq, Eq, Structural)]
pub enum UnsubscribeEvent {
    /// The command has come in.
    Asked,
    /// The author's permissions are known: whether they may manage
    /// channels.
    Permitted(bool),
    /// The channel has been taken out of the store.
    Deleted,
}

/// What is to be done next while a subscription is being ended.
#[derive(Clone, Copy, Debug, PartialEq, Eq, Structural)]
pub enum UnsubscribeAction {
    /// Look up the author's permissions.
    CheckPermissions,
    /// Take the channel out of the store.
    Delete,
    /// Say this in the channel; nothing follows.
    Say(Reply),
}

/// The next action while a subscription is being ended.
pub open spec fn unsubscribe_step_spec(event: UnsubscribeEvent) -> UnsubscribeAction {
    match event {
        UnsubscribeEvent::Asked => UnsubscribeAction::CheckPermissions,
        UnsubscribeEvent::Permitted(false) => UnsubscribeAction::Say(Reply::NoPermission),
        UnsubscribeEvent::Permitted(true) => UnsubscribeAction::Delete,
        UnsubscribeEvent::Deleted => UnsubscribeAction::Say(Reply::Unsubscribed),
    }
}

/// Decides the next action while a subscription is being ended.
pub fn unsubscribe_step(event: UnsubscribeEvent) -> (action: UnsubscribeAction)
    ensures
        action == unsubscribe_step_spec(event),
{
    match event {
        UnsubscribeEvent::Asked => UnsubscribeAction::CheckPermissions,
        UnsubscribeEvent::Permitted(allowed) => {
            if allowed {
                UnsubscribeAction::Delete
            } else {
                UnsubscribeAction::Say(Reply::NoPermission)
            }
        },
        UnsubscribeEvent::Deleted => UnsubscribeAction::Say(Reply::Unsubscribed),
    }
}

/// The address of the shop image of one day. The month counts from zero.
pub open spec fn shop_url_spec(year: i32, month0: u32, day: u32) -> Seq<char> {
    "https://wickshopbot.com/"@ + int_text(year as int) + "_"@ + nat_text(month0 as nat) + "_"@
        + nat_text(day as nat) + ".png"@
}

/// Builds the address of the shop image of one day.
pub fn shop_url(year: i32, month0: u32, day: u32) -> (url: String)
    ensures
        url@ == shop_url_spec(year, month0, day),
{
    let y: String = format_int(year as i64);
    let m: String = format_nat(month0 as u64);
    let d: String = format_nat(day as u64);
    String::from_str("https://wickshopbot.com/").concat(y.as_str()).concat("_").concat(
        m.as_str(),
    ).concat("_").concat(d.as_str()).concat(".png")
}

/// Builds the address of the image that the shop server has announced
/// under `name`.
pub fn image_url(name: &str) -> (url: String)
    ensures
        url@ == "https://wickshopbot.com/"@ + name@,
{
    String::from_str("https://wickshopbot.com/").concat(name)
}

} // verus!
