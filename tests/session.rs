use jump_game::input::KeyState;
use jump_game::physics::{step, Params, PlayerState};
use jump_game::protocol::{Action, Frame};
use jump_game::session::{AcceptError, World};
use jump_game::snapshot::{decode_snapshot, Entry};

fn offered() -> Vec<String> {
    vec!["rust-websocket".to_string()]
}

#[test]
fn mismatched_subprotocol_is_refused() {
    let mut w = World::new(Params::standard());
    assert_eq!(w.accept(&vec!["other".to_string()]), Err(AcceptError::ProtocolMismatch));
    assert_eq!(w.accept(&vec![]), Err(AcceptError::ProtocolMismatch));
    assert_eq!(w.len(), 0);
}

#[test]
fn two_sessions_get_distinct_players_and_close_removes_only_one() {
    let p = Params::standard();
    let mut w = World::new(p);
    let a = w.accept(&offered()).unwrap();
    let b = w.accept(&offered()).unwrap();
    assert_ne!(a, b);
    assert_eq!(w.len(), 2);
    assert_eq!(w.get(a).unwrap().player, PlayerState::spawn(&p));
    w.on_frame(b, Frame::Text("right-press".to_string()));
    w.tick(16_667);
    let b_before = w.get(b).unwrap();
    match w.on_frame(a, Frame::Close(None)) {
        Action::Shutdown(Frame::Close(None)) => {}
        _ => panic!("close was not answered with close"),
    }
    assert!(w.get(a).is_none());
    assert_eq!(w.get(b).unwrap(), b_before);
    assert_eq!(w.len(), 1);
    let snap = w.snapshot();
    assert_eq!(snap.len(), 1);
    assert_eq!(snap[0].id, b);
    match w.broadcast() {
        Frame::Binary(bytes) => {
            let es = decode_snapshot(&bytes).unwrap();
            assert_eq!(es.len(), 1);
            assert_eq!(es[0].id, b);
            assert_eq!(es[0].pos, b_before.player.pos);
        }
        _ => panic!("broadcast is not binary"),
    }
}

#[test]
fn closing_an_unknown_session_changes_nothing() {
    let mut w = World::new(Params::standard());
    let a = w.accept(&offered()).unwrap();
    assert!(!w.close(a + 100));
    assert_eq!(w.len(), 1);
    assert!(w.close(a));
    assert!(!w.close(a));
}

#[test]
fn ping_is_answered_with_same_payload() {
    let mut w = World::new(Params::standard());
    let a = w.accept(&offered()).unwrap();
    match w.on_frame(a, Frame::Ping(vec![4, 5, 6])) {
        Action::Send(Frame::Pong(d)) => assert_eq!(d, vec![4, 5, 6]),
        _ => panic!("ping was not answered with pong"),
    }
    assert_eq!(w.len(), 1);
}

#[test]
fn key_tokens_set_the_session_keys() {
    let mut w = World::new(Params::standard());
    let a = w.accept(&offered()).unwrap();
    let b = w.accept(&offered()).unwrap();
    assert!(matches!(w.on_frame(a, Frame::Text("space-press".to_string())), Action::Nothing));
    assert_eq!(w.get(a).unwrap().keys, KeyState { left: false, right: false, jump: true });
    assert_eq!(w.get(b).unwrap().keys, KeyState::none());
    w.on_frame(a, Frame::Text("space-release".to_string()));
    assert_eq!(w.get(a).unwrap().keys, KeyState::none());
}

#[test]
fn unknown_token_keeps_session_alive() {
    let mut w = World::new(Params::standard());
    let a = w.accept(&offered()).unwrap();
    assert!(matches!(w.on_frame(a, Frame::Text("dance".to_string())), Action::Nothing));
    assert!(matches!(w.on_frame(a, Frame::Pong(vec![1])), Action::Nothing));
    assert_eq!(w.len(), 1);
    assert_eq!(w.get(a).unwrap().keys, KeyState::none());
}

#[test]
fn socket_error_removes_the_player() {
    let mut w = World::new(Params::standard());
    let a = w.accept(&offered()).unwrap();
    w.on_error(a);
    assert_eq!(w.len(), 0);
}

#[test]
fn tick_steps_every_player_with_its_keys() {
    let p = Params::standard();
    let mut w = World::new(p);
    let a = w.accept(&offered()).unwrap();
    let b = w.accept(&offered()).unwrap();
    w.on_frame(a, Frame::Text("left-press".to_string()));
    w.tick(16_667);
    let s = PlayerState::spawn(&p);
    let left = KeyState { left: true, right: false, jump: false };
    assert_eq!(w.get(a).unwrap().player, step(&s, left, 16_667, &p));
    assert_eq!(w.get(b).unwrap().player, step(&s, KeyState::none(), 16_667, &p));
    assert_eq!(w.get(a).unwrap().player.pos.x, 398_612);
}

#[test]
fn broadcast_of_empty_world_is_empty() {
    let w = World::new(Params::standard());
    match w.broadcast() {
        Frame::Binary(b) => {
            assert!(b.is_empty());
            assert_eq!(decode_snapshot(&b), Some(Vec::<Entry>::new()));
        }
        _ => panic!("broadcast is not binary"),
    }
}

