//! The control channel to the shop server: the shape of its messages, the
//! framing of the byte stream, and the rules by which requests and answers
//! are matched.
//!
//! A message travels as JSON text followed by one form-feed byte. Turning a
//! message into JSON text and back is left to the program; everything else
//! about the channel is decided here.

use std::collections::HashSet;
use vstd::prelude::*;
use vstd::slice::{slice_subrange, slice_to_vec};
use vstd::std_specs::hash::group_hash_axioms;
use vstd::utf8::{encode_utf8, encode_utf8_decode_utf8};

verus! {

/// The byte that ends a message on the wire.
pub const FRAME_END: u8 = 12;

/// After how many seconds a request that got no answer is given up.
pub const REPLY_TIMEOUT_SECS: u64 = 10;

/// The request id of a message that carries none.
pub fn empty_value() -> (id: Option<u32>)
    ensures
        id is None,
{
    None
}

/// The type of a message that names none.
pub fn empty_string() -> (s: String)
    ensures
        s@ == Seq::<char>::empty(),
{
    String::new()
}

/// The inner part of a message: what is asked or answered.
#[derive(Clone, Debug, PartialEq, Eq)]
pub struct InnerMessage {
    /// What kind of request or answer this is.
    pub msg_type: String,
    /// The id that ties an answer to its request.
    pub request_id: Option<u32>,
    /// The payload, where it is a string.
    pub data: Option<String>,
}

/// One message of the control channel.
#[derive(Clone, Debug, PartialEq, Eq)]
pub struct MessageRequest {
    /// The direction of the message: sent by the bot or received by it.
    pub msg_type: String,
    /// What is asked or answered.
    pub data: InnerMessage,
}

impl MessageRequest {
    /// Whether this is the request `msg_type` with the payload `data`
    /// under the id `request_id`.
    pub open spec fn is_request(self, msg_type: Seq<char>, data: Seq<char>, request_id: u32)
        -> bool {
        &&& self.msg_type@ == "app.send_message"@
        &&& self.data.msg_type@ == msg_type
        &&& self.data.request_id == Some(request_id)
        &&& self.data.data matches Some(text)
        &&& text@ == data
    }

    /// Whether this is an answer, and to which request.
    pub open spec fn answers(self) -> Option<u32> {
        if self.msg_type@ == "app.receive_message"@ {
            self.data.request_id
        } else {
            None
        }
    }

    /// A request of the kind `msg_type` with the payload `data`.
    pub fn new(msg_type: &str, data: String, request_id: u32) -> (m: Self)
        ensures
            m.is_request(msg_type@, data@, request_id),
    {
        Self {
            msg_type: String::from_str("app.send_message"),
            data: InnerMessage {
                msg_type: String::from_str(msg_type),
                request_id: Some(request_id),
                data: Some(data),
            },
        }
    }

    /// The payload of the message, where it is a string.
    pub fn get_data(&self) -> (data: Option<&str>)
        ensures
            match data {
                Some(text) => self.data.data matches Some(held) && held@ == text@,
                None => self.data.data is None,
            },
    {
        match &self.data.data {
            Some(text) => Some(text.as_str()),
            None => None,
        }
    }

    /// The request that this message answers, if it is an answer.
    pub fn answered_request(&self) -> (id: Option<u32>)
        ensures
            id == self.answers(),
    {
        if text_equals(self.msg_type.as_str(), "app.receive_message") {
            self.data.request_id
        } else {
            None
        }
    }
}

/// Whether two byte strings are the same.
pub fn bytes_equal(a: &[u8], b: &[u8]) -> (same: bool)
    ensures
        same == (a@ == b@),
{
    if a.len() != b.len() {
        return false;
    }
    let mut i: usize = 0;
    while i < a.len()
        invariant
            a.len() == b.len(),
            i <= a.len(),
            a@.take(i as int) == b@.take(i as int),
        decreases a.len() - i,
    {
        if a[i] != b[i] {
            return false;
        }
        assert(a@.take(i + 1) =~= a@.take(i as int).push(a@[i as int]));
        assert(b@.take(i + 1) =~= b@.take(i as int).push(b@[i as int]));
        i = i + 1;
    }
    assert(a@ =~= a@.take(a.len() as int));
    assert(b@ =~= b@.take(b.len() as int));
    true
}

/// Whether two texts are the same.
pub fn text_equals(a: &str, b: &str) -> (same: bool)
    ensures
        same == (a@ == b@),
{
    proof {
        encode_utf8_decode_utf8(a@);
        encode_utf8_decode_utf8(b@);
    }
    bytes_equal(a.as_bytes(), b.as_bytes())
}

/// The bytes that carry `json` over the wire: its text and the byte that
/// ends the message.
pub fn frame(json: &str) -> (bytes: Vec<u8>)
    ensures
        bytes@ == encode_utf8(json@).push(FRAME_END),
{
    let mut bytes: Vec<u8> = slice_to_vec(json.as_bytes());
    bytes.push(FRAME_END);
    bytes
}

/// The text of a received message: all of it but the last byte, which ends
/// the message.
pub fn payload(msg: &[u8]) -> (text: &[u8])
    requires
        msg@.len() > 0,
    ensures
        text@ == msg@.drop_last(),
{
    slice_subrange(msg, 0, msg.len() - 1)
}

/// Whether `bytes` holds the byte that ends a message.
pub fn has_frame_end(bytes: &[u8]) -> (found: bool)
    ensures
        found == bytes@.contains(FRAME_END),
{
    let mut i: usize = 0;
    while i < bytes.len()
        invariant
            i <= bytes.len(),
            forall|j: int| 0 <= j < i ==> bytes@[j] != FRAME_END,
        decreases bytes.len() - i,
    {
        if bytes[i] == FRAME_END {
            return true;
        }
        i = i + 1;
    }
    false
}

/// The bytes read from the wire that do not make up a message yet.
pub struct FrameBuffer {
    read_msg: Vec<u8>,
}

impl View for FrameBuffer {
    type V = Seq<u8>;

    closed spec fn view(&self) -> Seq<u8> {
        self.read_msg@
    }
}

impl FrameBuffer {
    /// A buffer that holds nothing.
    pub fn new() -> (b: Self)
        ensures
            b@ == Seq::<u8>::empty(),
    {
        Self { read_msg: Vec::new() }
    }

    /// Takes in what one read gave. Once the bytes held contain the byte
    /// that ends a message, all of them are handed out as one message and
    /// the buffer is empty again; until then they are kept.
    pub fn push(&mut self, chunk: &[u8]) -> (message: Option<Vec<u8>>)
        ensures
            match message {
                Some(msg) => {
                    &&& msg@ == old(self)@ + chunk@
                    &&& msg@.contains(FRAME_END)
                    &&& msg@.len() > 0
                    &&& final(self)@ == Seq::<u8>::empty()
                },
                None => {
                    &&& final(self)@ == old(self)@ + chunk@
                    &&& !final(self)@.contains(FRAME_END)
                },
            },
    {
        let mut i: usize = 0;
        while i < chunk.len()
            invariant
                i <= chunk.len(),
                self.read_msg@ == old(self)@ + chunk@.take(i as int),
            decreases chunk.len() - i,
        {
            self.read_msg.push(chunk[i]);
            assert(chunk@.take(i + 1) =~= chunk@.take(i as int).push(chunk@[i as int]));
            i = i + 1;
        }
        assert(chunk@.take(chunk.len() as int) =~= chunk@);
        if has_frame_end(self.read_msg.as_slice()) {
            let mut message: Vec<u8> = Vec::new();
            core::mem::swap(&mut self.read_msg, &mut message);
            Some(message)
        } else {
            None
        }
    }
}

/// The bookkeeping of the requests that wait for an answer.
pub struct ClientState {
    /// The id that the last request got.
    pub request_id: u32,
    /// The ids of the requests that wait for an answer.
    pub active: Set<u32>,
}

/// Where a received message goes.
#[derive(Clone, Copy, Debug, PartialEq, Eq, Structural)]
pub enum Routing {
    /// It answers the waiting request with this id, which waits no longer.
    Deliver(u32),
    /// It answers a request with this id, but none such waits.
    Unclaimed(u32),
    /// It is no answer to a request.
    Ignored,
}

/// The id that follows `id`; after the largest comes `0`.
pub open spec fn next_id(id: u32) -> u32 {
    if id == u32::MAX {
        0
    } else {
        (id + 1) as u32
    }
}

/// Where `message` goes while the requests in `active` wait.
pub open spec fn route_spec(active: Set<u32>, message: MessageRequest) -> Routing {
    match message.answers() {
        Some(id) => if active.contains(id) {
            Routing::Deliver(id)
        } else {
            Routing::Unclaimed(id)
        },
        None => Routing::Ignored,
    }
}

/// The requests that wait for an answer, by id.
pub struct ClientManager {
    request_id: u32,
    active_messages: HashSet<u32>,
}

impl View for ClientManager {
    type V = ClientState;

    closed spec fn view(&self) -> ClientState {
        ClientState { request_id: self.request_id, active: self.active_messages@ }
    }
}

impl ClientManager {
    /// A channel on which nothing has been asked yet.
    pub fn new() -> (m: Self)
        ensures
            m@.request_id == 0,
            m@.active == Set::<u32>::empty(),
    {
        Self { request_id: 0, active_messages: HashSet::new() }
    }

    /// The id that the last request got.
    pub fn last_request_id(&self) -> (id: u32)
        ensures
            id == self@.request_id,
    {
        self.request_id
    }

    /// Whether the request `id` waits for an answer.
    pub fn is_active(&self, id: u32) -> (waiting: bool)
        ensures
            waiting == self@.active.contains(id),
    {
        broadcast use group_hash_axioms;

        self.active_messages.contains(&id)
    }

    /// Makes the next request: it gets the id after the last one.
    pub fn next_request(&mut self, msg_type: &str, data: String) -> (m: MessageRequest)
        ensures
            final(self)@.request_id == next_id(old(self)@.request_id),
            final(self)@.active == old(self)@.active,
            m.is_request(msg_type@, data@, final(self)@.request_id),
    {
        self.request_id = if self.request_id == u32::MAX {
            0
        } else {
            self.request_id + 1
        };
        MessageRequest::new(msg_type, data, self.request_id)
    }

    /// Notes that the request `id` has been sent and waits for its answer.
    pub fn register(&mut self, id: u32)
        ensures
            final(self)@.request_id == old(self)@.request_id,
            final(self)@.active == old(self)@.active.insert(id),
    {
        broadcast use group_hash_axioms;

        self.active_messages.insert(id);
    }

    /// Decides where a received message goes. An answer to a waiting
    /// request is delivered, and that request waits no longer.
    pub fn route(&mut self, message: &MessageRequest) -> (r: Routing)
        ensures
            r == route_spec(old(self)@.active, *message),
            final(self)@.request_id == old(self)@.request_id,
            final(self)@.active == match r {
                Routing::Deliver(id) => old(self)@.active.remove(id),
                _ => old(self)@.active,
            },
    {
        broadcast use group_hash_axioms;

        match message.answered_request() {
            Some(id) => {
                let waiting: bool = self.active_messages.remove(&id);
                if waiting {
                    Routing::Deliver(id)
                } else {
                    assert(self.active_messages@ =~= old(self).active_messages@);
                    Routing::Unclaimed(id)
                }
            },
            None => Routing::Ignored,
        }
    }
}

} // verus!
