//! The wire vocabulary: key tokens in text frames, keepalive, close, and
//! snapshot payloads in binary frames.
use vstd::prelude::*;
use crate::input::{Button, Edge, KeyEvent};

verus! {

/// Why a side closes: a status code and a reason.
pub struct CloseReason {
    pub code: u16,
    pub reason: String,
}

/// One frame as it travels over a connection.
pub enum Frame {
    Text(String),
    Binary(Vec<u8>),
    Ping(Vec<u8>),
    Pong(Vec<u8>),
    Close(Option<CloseReason>),
}

/// What a frame means.
pub enum Message {
    /// A button transition.
    Key(KeyEvent),
    /// A keepalive request with an opaque payload.
    Ping(Vec<u8>),
    /// The answer to a keepalive, carrying the request's payload.
    Pong(Vec<u8>),
    /// The sender is closing the session.
    Close(Option<CloseReason>),
    /// An encoded world snapshot.
    Snapshot(Vec<u8>),
}

/// What a connection's send side must do after an inbound frame.
pub enum Action {
    /// Nothing to send.
    Nothing,
    /// Send this frame; the session goes on.
    Send(Frame),
    /// Send this frame, then end both directions of the session.
    Shutdown(Frame),
}

/// How either side answers an inbound message: a ping with a pong carrying
/// the same payload, a close with its own close and the end of the session,
/// anything else with nothing.
pub open spec fn reaction(m: Option<Message>) -> Action {
    match m {
        Some(Message::Ping(d)) => Action::Send(Frame::Pong(d)),
        Some(Message::Close(_)) => Action::Shutdown(Frame::Close(None)),
        _ => Action::Nothing,
    }
}

/// The token that names a button transition on the wire.
pub open spec fn token_text(ev: KeyEvent) -> Seq<char> {
    match (ev.button, ev.edge) {
        (Button::Left, Edge::Press) => "left-press"@,
        (Button::Left, Edge::Release) => "left-release"@,
        (Button::Right, Edge::Press) => "right-press"@,
        (Button::Right, Edge::Release) => "right-release"@,
        (Button::Jump, Edge::Press) => "space-press"@,
        (Button::Jump, Edge::Release) => "space-release"@,
    }
}

/// The transition a token names, if it is one of the six tokens.
pub open spec fn token_event(t: Seq<char>) -> Option<KeyEvent> {
    if t == token_text(KeyEvent { button: Button::Left, edge: Edge::Press }) {
        Some(KeyEvent { button: Button::Left, edge: Edge::Press })
    } else if t == token_text(KeyEvent { button: Button::Left, edge: Edge::Release }) {
        Some(KeyEvent { button: Button::Left, edge: Edge::Release })
    } else if t == token_text(KeyEvent { button: Button::Right, edge: Edge::Press }) {
        Some(KeyEvent { button: Button::Right, edge: Edge::Press })
    } else if t == token_text(KeyEvent { button: Button::Right, edge: Edge::Release }) {
        Some(KeyEvent { button: Button::Right, edge: Edge::Release })
    } else if t == token_text(KeyEvent { button: Button::Jump, edge: Edge::Press }) {
        Some(KeyEvent { button: Button::Jump, edge: Edge::Press })
    } else if t == token_text(KeyEvent { button: Button::Jump, edge: Edge::Release }) {
        Some(KeyEvent { button: Button::Jump, edge: Edge::Release })
    } else {
        None
    }
}

/// `f` is the frame that carries `m`.
pub open spec fn encodes(m: Message, f: Frame) -> bool {
    match m {
        Message::Key(ev) => match f {
            Frame::Text(t) => t@ == token_text(ev),
            _ => false,
        },
        Message::Ping(d) => f == Frame::Ping(d),
        Message::Pong(d) => f == Frame::Pong(d),
        Message::Close(c) => f == Frame::Close(c),
        Message::Snapshot(b) => f == Frame::Binary(b),
    }
}

/// What a frame means; `None` for a text frame that holds no known token.
pub open spec fn decoded(f: Frame) -> Option<Message> {
    match f {
        Frame::Text(t) => match token_event(t@) {
            Some(ev) => Some(Message::Key(ev)),
            None => None,
        },
        Frame::Binary(b) => Some(Message::Snapshot(b)),
        Frame::Ping(d) => Some(Message::Ping(d)),
        Frame::Pong(d) => Some(Message::Pong(d)),
        Frame::Close(c) => Some(Message::Close(c)),
    }
}

/// The subprotocol both sides must agree on at the handshake.
pub open spec fn protocol_name() -> Seq<char> {
    "rust-websocket"@
}

/// The subprotocol name.
pub fn protocol() -> (r: String)
    ensures
        r@ == protocol_name(),
{
    "rust-websocket".to_owned()
}

/// The token for a button transition.
pub fn key_token(ev: KeyEvent) -> (r: String)
    ensures
        r@ == token_text(ev),
{
    match (ev.button, ev.edge) {
        (Button::Left, Edge::Press) => "left-press".to_owned(),
        (Button::Left, Edge::Release) => "left-release".to_owned(),
        (Button::Right, Edge::Press) => "right-press".to_owned(),
        (Button::Right, Edge::Release) => "right-release".to_owned(),
        (Button::Jump, Edge::Press) => "space-press".to_owned(),
        (Button::Jump, Edge::Release) => "space-release".to_owned(),
    }
}

/// The transition a token names, or `None` for any other text.
pub fn parse_token(t: &str) -> (r: Option<KeyEvent>)
    ensures
        r == token_event(t@),
{
    let s = t.to_owned();
    let evs = [
        KeyEvent { button: Button::Left, edge: Edge::Press },
        KeyEvent { button: Button::Left, edge: Edge::Release },
        KeyEvent { button: Button::Right, edge: Edge::Press },
        KeyEvent { button: Button::Right, edge: Edge::Release },
        KeyEvent { button: Button::Jump, edge: Edge::Press },
        KeyEvent { button: Button::Jump, edge: Edge::Release },
    ];
    if s == key_token(evs[0]) {
        Some(evs[0])
    } else if s == key_token(evs[1]) {
        Some(evs[1])
    } else if s == key_token(evs[2]) {
        Some(evs[2])
    } else if s == key_token(evs[3]) {
        Some(evs[3])
    } else if s == key_token(evs[4]) {
        Some(evs[4])
    } else if s == key_token(evs[5]) {
        Some(evs[5])
    } else {
        None
    }
}

/// The frame that carries a message.
pub fn encode(m: Message) -> (r: Frame)
    ensures
        encodes(m, r),
{
    match m {
        Message::Key(ev) => Frame::Text(key_token(ev)),
        Message::Ping(d) => Frame::Ping(d),
        Message::Pong(d) => Frame::Pong(d),
        Message::Close(c) => Frame::Close(c),
        Message::Snapshot(b) => Frame::Binary(b),
    }
}

/// What a frame means; `None` for text that holds no known token, which a
/// receiver ignores.
pub fn decode(f: Frame) -> (r: Option<Message>)
    ensures
        r == decoded(f),
{
    match f {
        Frame::Text(t) => match parse_token(t.as_str()) {
            Some(ev) => Some(Message::Key(ev)),
            None => None,
        },
        Frame::Binary(b) => Some(Message::Snapshot(b)),
        Frame::Ping(d) => Some(Message::Ping(d)),
        Frame::Pong(d) => Some(Message::Pong(d)),
        Frame::Close(c) => Some(Message::Close(c)),
    }
}

/// Whether the client offered the subprotocol this server speaks.
pub fn negotiate(offered: &Vec<String>) -> (r: bool)
    ensures
        r == exists|i: int| 0 <= i < offered@.len() && #[trigger] offered@[i]@ == protocol_name(),
{
    let want = protocol();
    let mut i: usize = 0;
    while i < offered.len()
        invariant
            0 <= i <= offered@.len(),
            want@ == protocol_name(),
            forall|j: int| 0 <= j < i ==> #[trigger] offered@[j]@ != protocol_name(),
        decreases offered@.len() - i,
    {
        if offered[i] == want {
            return true;
        }
        i = i + 1;
    }
    false
}

/// The six tokens are distinct, so each names exactly its own transition.
pub proof fn lemma_token_round_trip(ev: KeyEvent)
    ensures
        token_event(token_text(ev)) == Some(ev),
{
    reveal_strlit("left-press");
    reveal_strlit("left-release");
    reveal_strlit("right-press");
    reveal_strlit("right-release");
    reveal_strlit("space-press");
    reveal_strlit("space-release");
    assert("left-press"@[0] != "right-press"@[0]);
    assert("left-press"@[0] != "space-press"@[0]);
    assert("right-press"@[0] != "space-press"@[0]);
    assert("left-press"@.len() != "left-release"@.len());
    assert("right-press"@.len() != "right-release"@.len());
    assert("space-press"@.len() != "space-release"@.len());
    assert("left-release"@[0] != "right-release"@[0]);
    assert("left-release"@[0] != "space-release"@[0]);
    assert("right-release"@[0] != "space-release"@[0]);
    assert("left-press"@.len() != "right-release"@.len());
    assert("left-press"@.len() != "space-release"@.len());
    assert("left-release"@[0] != "right-press"@[0]);
    assert("left-release"@[0] != "space-press"@[0]);
    assert("right-press"@.len() != "space-release"@.len());
    assert("right-release"@[0] != "space-press"@[0]);
}

/// Decoding the frame that carries a message gives the message back.
pub proof fn lemma_round_trip(m: Message, f: Frame)
    requires
        encodes(m, f),
    ensures
        decoded(f) == Some(m),
{
    if let Message::Key(ev) = m {
        lemma_token_round_trip(ev);
    }
}

} // verus!
