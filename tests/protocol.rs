use jump_game::input::{Button, Edge, KeyEvent};
use jump_game::protocol::{decode, encode, key_token, negotiate, parse_token, protocol, CloseReason, Frame, Message};

fn all_events() -> Vec<KeyEvent> {
    let mut v = Vec::new();
    for b in [Button::Left, Button::Right, Button::Jump] {
        for e in [Edge::Press, Edge::Release] {
            v.push(KeyEvent { button: b, edge: e });
        }
    }
    v
}

#[test]
fn tokens_on_the_wire() {
    assert_eq!(key_token(KeyEvent { button: Button::Left, edge: Edge::Press }), "left-press");
    assert_eq!(key_token(KeyEvent { button: Button::Left, edge: Edge::Release }), "left-release");
    assert_eq!(key_token(KeyEvent { button: Button::Right, edge: Edge::Press }), "right-press");
    assert_eq!(key_token(KeyEvent { button: Button::Right, edge: Edge::Release }), "right-release");
    assert_eq!(key_token(KeyEvent { button: Button::Jump, edge: Edge::Press }), "space-press");
    assert_eq!(key_token(KeyEvent { button: Button::Jump, edge: Edge::Release }), "space-release");
}

#[test]
fn every_token_round_trips() {
    for ev in all_events() {
        assert_eq!(parse_token(&key_token(ev)), Some(ev));
        match decode(encode(Message::Key(ev))) {
            Some(Message::Key(back)) => assert_eq!(back, ev),
            _ => panic!("token did not decode"),
        }
    }
}

#[test]
fn unknown_tokens_are_ignored() {
    assert_eq!(parse_token("jump-press"), None);
    assert_eq!(parse_token("left-press "), None);
    assert_eq!(parse_token(""), None);
    assert!(decode(Frame::Text("Flubbabubba".to_string())).is_none());
}

#[test]
fn keepalive_and_close_round_trip() {
    match decode(encode(Message::Ping(vec![1, 2, 3]))) {
        Some(Message::Ping(d)) => assert_eq!(d, vec![1, 2, 3]),
        _ => panic!("ping did not decode"),
    }
    match decode(encode(Message::Pong(vec![9]))) {
        Some(Message::Pong(d)) => assert_eq!(d, vec![9]),
        _ => panic!("pong did not decode"),
    }
    match decode(encode(Message::Close(None))) {
        Some(Message::Close(None)) => {}
        _ => panic!("close did not decode"),
    }
    let reason = CloseReason { code: 1000, reason: "bye".to_string() };
    match decode(encode(Message::Close(Some(reason)))) {
        Some(Message::Close(Some(r))) => {
            assert_eq!(r.code, 1000);
            assert_eq!(r.reason, "bye");
        }
        _ => panic!("close did not decode"),
    }
    match decode(encode(Message::Snapshot(vec![7; 44]))) {
        Some(Message::Snapshot(b)) => assert_eq!(b, vec![7; 44]),
        _ => panic!("snapshot did not decode"),
    }
}

#[test]
fn key_messages_travel_as_text() {
    match encode(Message::Key(KeyEvent { button: Button::Jump, edge: Edge::Press })) {
        Frame::Text(t) => assert_eq!(t, "space-press"),
        _ => panic!("not a text frame"),
    }
}

#[test]
fn subprotocol_negotiation() {
    assert_eq!(protocol(), "rust-websocket");
    assert!(negotiate(&vec!["chat".to_string(), "rust-websocket".to_string()]));
    assert!(!negotiate(&vec!["chat".to_string()]));
    assert!(!negotiate(&vec![]));
}
