//! What the nearby service keeps and shows: connection state, profiles,
//! posts and the messages made of them.

use crate::data::{join_key, BlobHash, PublicKey, WideId};
use vstd::prelude::*;

verus! {

/// Key of the status row that each author writes.
pub const PUBLIC_STATUS: &'static str = "status";

/// Prefix of the keys of posts: `messages/<created_at>`.
pub const MESSAGES: &'static str = "messages";

/// Key of the pointer to an author's public bio collection.
pub const BIO: &'static str = "public_bio";

/// Prefix of the keys of payload pointers: `message_payloads/<created_at>`.
pub const MESSAGE_PAYLOADS: &'static str = "message_payloads";

/// The connection status that the user sees.
#[derive(Clone, Copy, Debug, PartialEq, Eq, Structural)]
pub enum ConState {
    Offline,
    Searching,
    /// Connected, with the number of live peers.
    Connected(u32),
    Reconnecting,
    Disconnected,
    Invalid,
}

/// A line of text that an author shows beside their name.
#[derive(Debug, PartialEq)]
pub struct Status {
    pub text: String,
}

impl Clone for Status {
    fn clone(&self) -> (copy: Self)
        ensures
            copy == *self,
    {
        Status { text: self.text.clone() }
    }
}

/// An author of the active document, as shown to the user.
#[derive(Debug)]
pub struct NearbyProfile {
    pub pk: PublicKey,
    pub name: String,
    pub pic: Option<BlobHash>,
    pub status: Status,
}

impl Clone for NearbyProfile {
    fn clone(&self) -> (copy: Self)
        ensures
            copy == *self,
    {
        NearbyProfile {
            pk: self.pk,
            name: self.name.clone(),
            pic: self.pic,
            status: self.status.clone(),
        }
    }
}

/// A post, as shown to the user.
#[derive(Debug)]
pub struct DisplayMessage {
    pub id: u32,
    pub text: String,
    pub is_self: bool,
    pub payload: Option<BlobHash>,
}

impl Clone for DisplayMessage {
    fn clone(&self) -> (copy: Self)
        ensures
            copy == *self,
    {
        DisplayMessage {
            id: self.id,
            text: self.text.clone(),
            is_self: self.is_self,
            payload: self.payload,
        }
    }
}

/// Which document is active.
#[derive(Debug, Clone, Copy, PartialEq, Eq, Structural)]
pub struct DocData {
    pub doc_id: WideId,
}

/// An author's public bio, as shown to the user.
#[derive(Debug)]
pub struct BioDetails {
    pub text: String,
    pub shared: bool,
    pub editable: bool,
    pub pics: Vec<BlobHash>,
}

/// An instant in UTC: whole seconds since the Unix epoch, and the
/// nanoseconds since the last whole second.
#[derive(Clone, Copy, Debug, PartialEq, Eq, Structural)]
pub struct Timestamp {
    pub secs: i64,
    pub nanos: u32,
}

impl Timestamp {
    /// `self` is earlier than `other`.
    pub open spec fn earlier(self, other: Timestamp) -> bool {
        self.secs < other.secs || (self.secs == other.secs && self.nanos < other.nanos)
    }

    /// `self` is no later than `other`.
    pub open spec fn no_later(self, other: Timestamp) -> bool {
        !other.earlier(self)
    }

    pub fn lt(&self, other: &Timestamp) -> (before: bool)
        ensures
            before == self.earlier(*other),
    {
        self.secs < other.secs || (self.secs == other.secs && self.nanos < other.nanos)
    }

    /// The instant that the clock shows. It is an instant of the calendar:
    /// it has a text.
    pub fn now() -> (now: Timestamp)
        ensures
            spec_timestamp_text(now.secs, now.nanos) is Some,
    {
        clock_now()
    }

    /// The text of the instant in keys: date, time and `UTC`. `None` for
    /// seconds and nanoseconds that name no instant of the calendar.
    pub fn text(&self) -> (text: Option<String>)
        ensures
            match text {
                Some(t) => spec_timestamp_text(self.secs, self.nanos) == Some(t@),
                None => spec_timestamp_text(self.secs, self.nanos) is None,
            },
    {
        timestamp_text(self.secs, self.nanos)
    }
}

/// What `chrono` writes for the instant of the given seconds and
/// nanoseconds, where it has such an instant.
pub uninterp spec fn spec_timestamp_text(secs: i64, nanos: u32) -> Option<Seq<char>>;

/// Calls `chrono::DateTime::<Utc>::from_timestamp` and, where that gives an
/// instant, `to_string` on it. Both are believed to depend on the two
/// numbers alone: the text is the date, a space, the time, a space and
/// `UTC`, and there is none where the numbers are out of the calendar's
/// range.
#[verifier::external_body]
fn timestamp_text(secs: i64, nanos: u32) -> (text: Option<String>)
    ensures
        match text {
            Some(t) => spec_timestamp_text(secs, nanos) == Some(t@),
            None => spec_timestamp_text(secs, nanos) is None,
        },
{
    match chrono::DateTime::<chrono::Utc>::from_timestamp(secs, nanos) {
        Some(instant) => Some(instant.to_string()),
        None => None,
    }
}

/// Calls `chrono::Utc::now` and takes the instant apart with `timestamp`
/// and `timestamp_subsec_nanos`. Nothing is claimed of what the clock
/// shows, but that it is an instant: `chrono` promises that
/// `from_timestamp` gives back every instant from the seconds and
/// nanoseconds that these two hand out.
#[verifier::external_body]
fn clock_now() -> (now: Timestamp)
    ensures
        spec_timestamp_text(now.secs, now.nanos) is Some,
{
    let instant = chrono::Utc::now();
    Timestamp { secs: instant.timestamp(), nanos: instant.timestamp_subsec_nanos() }
}

/// A message. The author and the instant of creation identify it.
#[derive(Debug, PartialEq)]
pub struct Post {
    pub pk: PublicKey,
    pub created_at: Timestamp,
    pub title: Option<String>,
    pub body: Option<String>,
    pub payload: Option<BlobHash>,
}

impl Clone for Post {
    fn clone(&self) -> (copy: Self)
        ensures
            copy == *self,
    {
        Post {
            pk: self.pk,
            created_at: self.created_at,
            title: match &self.title {
                Some(title) => Some(title.clone()),
                None => None,
            },
            body: match &self.body {
                Some(body) => Some(body.clone()),
                None => None,
            },
            payload: self.payload,
        }
    }
}

impl Post {
    /// An empty post of `pk`, created now: at an instant of the calendar,
    /// so that the post has a key.
    pub fn new(pk: PublicKey) -> (post: Post)
        ensures
            post.pk == pk,
            spec_timestamp_text(post.created_at.secs, post.created_at.nanos) is Some,
            post.title is None,
            post.body is None,
            post.payload is None,
    {
        Post::at(pk, Timestamp::now())
    }

    /// An empty post of `pk`, created at the given instant.
    pub fn at(pk: PublicKey, created_at: Timestamp) -> (post: Post)
        ensures
            post == (Post { pk, created_at, title: None, body: None, payload: None }),
    {
        Post { pk, created_at, title: None, body: None, payload: None }
    }

    pub fn title(self, title: &str) -> (post: Post)
        ensures
            post.title matches Some(t) && t@ == title@,
            post.pk == self.pk,
            post.created_at == self.created_at,
            post.body == self.body,
            post.payload == self.payload,
    {
        let mut post = self;
        post.title = Some(title.to_owned());
        post
    }

    pub fn body(self, body: String) -> (post: Post)
        ensures
            post == (Post { body: Some(body), ..self }),
    {
        let mut post = self;
        post.body = Some(body);
        post
    }

    pub fn payload(self, payload: Option<BlobHash>) -> (post: Post)
        ensures
            post == (Post { payload, ..self }),
    {
        let mut post = self;
        post.payload = payload;
        post
    }
}

/// The key under which a post is written: `messages/<created_at>`. `None`
/// where the instant of the post has no text.
pub fn message_key(msg: &Post) -> (key: Option<String>)
    ensures
        match spec_timestamp_text(msg.created_at.secs, msg.created_at.nanos) {
            Some(t) => key matches Some(k) && k@ == MESSAGES@ + "/"@ + t,
            None => key is None,
        },
{
    match msg.created_at.text() {
        Some(text) => Some(join_key(MESSAGES, text.as_str())),
        None => None,
    }
}

/// The key under which the payload of a post is pointed to:
/// `message_payloads/<created_at>`. `None` where the instant of the post
/// has no text.
pub fn message_payload_key(msg: &Post) -> (key: Option<String>)
    ensures
        match spec_timestamp_text(msg.created_at.secs, msg.created_at.nanos) {
            Some(t) => key matches Some(k) && k@ == MESSAGE_PAYLOADS@ + "/"@ + t,
            None => key is None,
        },
{
    match msg.created_at.text() {
        Some(text) => Some(join_key(MESSAGE_PAYLOADS, text.as_str())),
        None => None,
    }
}

/// The text that a post shows: its body, or nothing.
pub open spec fn shown_text(msg: Post) -> Seq<char> {
    match msg.body {
        Some(body) => body@,
        None => Seq::empty(),
    }
}

/// The message that shows the post at place `idx` of the list, to the user
/// `me`. The number of the message is `idx`, cut to 32 bits.
pub fn display_msg_map(idx: usize, me: &PublicKey, msg: Post) -> (shown: DisplayMessage)
    ensures
        shown.id == (idx as int) % 0x1_0000_0000,
        shown.text@ == shown_text(msg),
        shown.is_self == (*me == msg.pk),
        shown.payload == msg.payload,
{
    let id = (idx as u64 % 0x1_0000_0000) as u32;
    let is_self = *me == msg.pk;
    let payload = msg.payload;
    let text = match msg.body {
        Some(body) => body,
        None => String::new(),
    };
    DisplayMessage { id, text, is_self, payload }
}

} // verus!
