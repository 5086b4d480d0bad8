//! The client's side of a session: local button transitions go out as
//! tokens, and the newest complete snapshot from the server is kept for the
//! renderer.
use vstd::prelude::*;
use crate::input::{Button, Edge, InputTracker, KeyEvent, KeyState};
use crate::protocol::{Action, Frame, Message, decode, decoded, encode, encodes, reaction};
use crate::snapshot::{Entry, decode_snapshot, parse_snapshot};

verus! {

/// The client's state: the buttons held locally and the last snapshot.
pub struct SyncClient {
    tracker: InputTracker,
    latest: Option<Vec<Entry>>,
}

/// The snapshot a client keeps after an inbound message: a snapshot whose
/// bytes are whole entries replaces the old one; anything else keeps it.
pub open spec fn kept_snapshot(old: Option<Seq<Entry>>, m: Option<Message>) -> Option<Seq<Entry>> {
    match m {
        Some(Message::Snapshot(b)) => match parse_snapshot(b@) {
            Some(es) => Some(es),
            None => old,
        },
        _ => old,
    }
}

impl SyncClient {
    /// The buttons held locally.
    pub closed spec fn keys_spec(&self) -> KeyState {
        self.tracker.keys
    }

    /// The last complete snapshot received, if any.
    pub closed spec fn latest_spec(&self) -> Option<Seq<Entry>> {
        match self.latest {
            Some(v) => Some(v@),
            None => None,
        }
    }

    /// A client with no button held and no snapshot yet.
    pub fn new() -> (r: SyncClient)
        ensures
            r.keys_spec() == KeyState::none_spec(),
            r.latest_spec() is None,
    {
        SyncClient { tracker: InputTracker::new(), latest: None }
    }

    /// A raw local key signal. A real transition gives the frame to send;
    /// a repeated signal gives nothing.
    pub fn key_signal(&mut self, button: Button, edge: Edge) -> (r: Option<Frame>)
        ensures
            final(self).latest_spec() == old(self).latest_spec(),
            old(self).keys_spec().held(button) != (edge == Edge::Press) ==> {
                &&& r matches Some(f) && encodes(Message::Key(KeyEvent { button, edge }), f)
                &&& final(self).keys_spec() == old(self).keys_spec().after(KeyEvent { button, edge })
            },
            old(self).keys_spec().held(button) == (edge == Edge::Press) ==> {
                &&& r is None
                &&& final(self).keys_spec() == old(self).keys_spec()
            },
    {
        match self.tracker.on_event(button, edge) {
            Some(ev) => Some(encode(Message::Key(ev))),
            None => None,
        }
    }

    /// Handles one inbound frame: a ping is answered with a pong, a close
    /// with a close and the end of the session, and a snapshot whose bytes
    /// are whole entries replaces the kept one. Anything else is ignored.
    pub fn on_frame(&mut self, f: Frame) -> (r: Action)
        ensures
            r == reaction(decoded(f)),
            final(self).keys_spec() == old(self).keys_spec(),
            final(self).latest_spec() == kept_snapshot(old(self).latest_spec(), decoded(f)),
    {
        match decode(f) {
            Some(Message::Ping(d)) => Action::Send(Frame::Pong(d)),
            Some(Message::Close(_)) => Action::Shutdown(Frame::Close(None)),
            Some(Message::Snapshot(b)) => {
                match decode_snapshot(&b) {
                    Some(es) => {
                        self.latest = Some(es);
                    },
                    None => {},
                }
                Action::Nothing
            },
            _ => Action::Nothing,
        }
    }

    /// A read failure ends the session as a close would.
    pub fn on_error(&self) -> (r: Action)
        ensures
            r == Action::Shutdown(Frame::Close(None)),
    {
        Action::Shutdown(Frame::Close(None))
    }

    /// The newest complete snapshot; reading never waits.
    pub fn latest(&self) -> (r: &Option<Vec<Entry>>)
        ensures
            r is None <==> self.latest_spec() is None,
            r matches Some(v) ==> self.latest_spec() == Some(v@),
    {
        &self.latest
    }
}

} // verus!
