use jump_game::input::KeyState;
use jump_game::physics::{box_window_coords, simulate, step, to_window_coords, Params, PlayerState, Rect, Vector2, VEL_LIMIT};

const DT: i64 = 16_667;

fn keys(left: bool, right: bool, jump: bool) -> KeyState {
    KeyState { left, right, jump }
}

fn at(p: &Params, x: i64, y: i64, vx: i64, grounded: bool) -> PlayerState {
    let mut s = PlayerState::spawn(p);
    s.pos = Vector2 { x, y };
    s.vel = Vector2 { x: vx, y: 0 };
    s.grounded = grounded;
    s
}

#[test]
fn standard_params_hold_the_game_constants() {
    let p = Params::standard();
    assert_eq!(p.gravity, 9_810_000);
    assert_eq!(p.jump_force, 50_000_000);
    assert_eq!(p.jump_duration, 12);
    assert_eq!(p.drift_duration, 40);
    assert_eq!(p.width, 6_400_000);
    assert_eq!(p.height, 4_800_000);
}

#[test]
fn spawn_point_is_fixed() {
    let p = Params::standard();
    let s = PlayerState::spawn(&p);
    assert_eq!(s.pos, Vector2 { x: 400_000, y: 700_000 });
    assert_eq!(s.vel, Vector2 { x: 0, y: 0 });
    assert_eq!(s.size, Vector2 { x: 400_000, y: 600_000 });
    assert_eq!(s.jump_time, 0);
    assert_eq!(s.drift_time, 0);
    assert!(!s.grounded);
    assert!(s.is_wf(&p));
}

#[test]
fn player_falls_from_spawn() {
    let p = Params::standard();
    let r = step(&PlayerState::spawn(&p), keys(false, false, false), DT, &p);
    assert_eq!(r.vel.y, -163_503);
    assert_eq!(r.pos.y, 697_275);
    assert_eq!(r.pos.x, 400_000);
    assert_eq!(r.acc.y, -9_810_000);
    assert_eq!(r.jump_time, 12);
    assert!(!r.grounded);
}

#[test]
fn left_key_drives_left() {
    let p = Params::standard();
    let r = step(&PlayerState::spawn(&p), keys(true, false, false), DT, &p);
    assert_eq!(r.acc.x, -5_000_000);
    assert_eq!(r.vel.x, -83_335);
    assert_eq!(r.pos.x, 398_612);
    assert_eq!(r.drift_time, 1);
}

#[test]
fn run_impulse_lasts_drift_duration_then_friction() {
    let p = Params::standard();
    let mut s = at(&p, 3_000_000, 300_166, 0, true);
    for _ in 0..40 {
        s = step(&s, keys(false, true, false), DT, &p);
        assert_eq!(s.acc.x, 5_000_000);
    }
    assert_eq!(s.drift_time, 40);
    let r = step(&s, keys(false, true, false), DT, &p);
    assert_eq!(r.drift_time, 0);
    assert_eq!(r.acc.x, -500_000);
}

#[test]
fn timers_stay_in_their_windows() {
    let p = Params::standard();
    let mut s = PlayerState::spawn(&p);
    for i in 0..300u32 {
        let k = keys(i % 3 == 0, i % 5 == 0, i % 7 < 4);
        let dt = 1 + (i as i64 * 7_919) % 1_000_000;
        s = step(&s, k, dt, &p);
        assert!(s.jump_time <= p.jump_duration);
        assert!(s.drift_time <= p.drift_duration);
        assert!(s.pos.x >= 0 && s.pos.x <= p.width);
        assert!(s.pos.y >= p.box_height && s.pos.y <= p.height);
    }
}

#[test]
fn floor_clamp_is_stable_at_rest() {
    let p = Params::standard();
    let s = at(&p, 400_000, 300_166, 0, true);
    let r = step(&s, keys(false, false, false), DT, &p);
    assert_eq!(r.pos.y, 300_166);
    assert_eq!(r.pos.x, 400_000);
    assert_eq!(r.vel, Vector2 { x: 0, y: 0 });
    assert!(r.grounded);
    let r2 = step(&r, keys(false, false, false), DT, &p);
    assert_eq!(r2.pos, r.pos);
}

#[test]
fn wall_clamp_is_stable_at_rest() {
    let p = Params::standard();
    let s = at(&p, 166, 300_166, 0, true);
    let r = step(&s, keys(false, false, false), DT, &p);
    assert_eq!(r.pos.x, 166);
    let s = at(&p, 6_400_000 - 166, 300_166, 0, true);
    let r = step(&s, keys(false, false, false), DT, &p);
    assert_eq!(r.pos.x, 6_400_000 - 166);
}

#[test]
fn left_wall_stops_the_player() {
    let p = Params::standard();
    let s = at(&p, 1_000, 300_166, -1_000_000, true);
    let r = step(&s, keys(false, false, false), DT, &p);
    assert_eq!(r.pos.x, 166);
    assert_eq!(r.vel.x, 0);
}

#[test]
fn ground_drag_applies_on_the_floor() {
    let p = Params::standard();
    let s = at(&p, 400_000, 300_166, 1_000_000, true);
    let r = step(&s, keys(false, false, false), DT, &p);
    assert_eq!(r.acc.x, -500_000);
    assert_eq!(r.vel.x, 991_667);
    assert_eq!(r.pos.x, 416_528);
    assert!(r.grounded);
}

#[test]
fn air_drag_applies_in_the_air() {
    let p = Params::standard();
    let s = at(&p, 400_000, 2_000_000, 1_000_000, false);
    let r = step(&s, keys(false, false, false), DT, &p);
    assert_eq!(r.acc.x, -100_000);
    assert_eq!(r.vel.x, 998_334);
    let s = at(&p, 400_000, 2_000_000, -1_000_000, false);
    let r = step(&s, keys(false, false, false), DT, &p);
    assert_eq!(r.acc.x, 100_000);
    assert_eq!(r.vel.x, -998_334);
}

#[test]
fn drag_snaps_to_rest_in_the_dead_zone() {
    let p = Params::standard();
    let s = at(&p, 400_000, 300_166, 9_999, true);
    let r = step(&s, keys(false, false, false), DT, &p);
    assert_eq!(r.vel.x, 0);
    assert_eq!(r.acc.x, 0);
    let s = at(&p, 400_000, 300_166, 15_000, true);
    let r = step(&s, keys(false, false, false), DT, &p);
    assert_eq!(r.vel.x, 0);
    let mut s = at(&p, 400_000, 300_166, 100_000, true);
    let mut ticks = 0;
    while s.vel.x != 0 {
        let before = s.vel.x;
        s = step(&s, keys(false, false, false), DT, &p);
        assert!(s.vel.x == 0 || s.vel.x == before - 8_333);
        ticks += 1;
    }
    assert_eq!(ticks, 11);
}

#[test]
fn jump_latch_holds_in_the_air() {
    let p = Params::standard();
    let mut s = at(&p, 400_000, 2_000_000, 0, false);
    s.jump_time = 12;
    let r = step(&s, keys(false, false, true), DT, &p);
    assert_eq!(r.jump_time, 12);
    assert_eq!(r.acc.y, -9_810_000);
    let r = step(&s, keys(false, false, false), DT, &p);
    assert_eq!(r.jump_time, 12);
}

#[test]
fn landing_rearms_the_jump() {
    let p = Params::standard();
    let mut s = at(&p, 400_000, 300_166, 0, true);
    s.jump_time = 12;
    let r = step(&s, keys(false, false, false), DT, &p);
    assert_eq!(r.jump_time, 0);
    let r2 = step(&r, keys(false, false, true), DT, &p);
    assert_eq!(r2.jump_time, 1);
    assert_eq!(r2.acc.y, 50_000_000);
}

#[test]
fn trajectories_are_deterministic() {
    let p = Params::standard();
    let mut ks = Vec::new();
    let mut dts = Vec::new();
    for i in 0..120u32 {
        ks.push(keys(i % 4 == 0, i % 9 == 0, i < 20));
        dts.push(16_667 + i as i64);
    }
    let s = PlayerState::spawn(&p);
    let first = simulate(&s, &ks, &dts, &p);
    let second = simulate(&s, &ks, &dts, &p);
    assert_eq!(first.len(), 120);
    assert_eq!(first, second);
    let mut cur = s;
    for i in 0..120 {
        cur = step(&cur, ks[i], dts[i], &p);
        assert_eq!(first[i], cur);
    }
}

#[test]
fn run_stops_before_leaving_the_range() {
    let p = Params::standard();
    let s = at(&p, 3_000_000, 2_000_000, VEL_LIMIT, false);
    let r = step(&s, keys(false, true, false), 1, &p);
    assert!(!r.is_wf(&p));
    assert_eq!(r.vel.x, VEL_LIMIT + 5);
    let run = simulate(&s, &vec![keys(false, true, false)], &vec![1], &p);
    assert!(run.is_empty());
}

#[test]
fn held_jump_rises_then_gravity_takes_over() {
    let p = Params::standard();
    let mut s = PlayerState::spawn(&p);
    let expect_y = [
        713_889, 741_667, 783_335, 838_892, 908_339, 991_675, 1_088_901, 1_200_016, 1_325_021,
        1_463_915, 1_616_698, 1_783_371,
    ];
    for (i, y) in expect_y.iter().enumerate() {
        let before = s.pos.y;
        s = step(&s, keys(false, false, true), DT, &p);
        assert!(s.pos.y > before);
        assert_eq!(s.pos.y, *y);
        assert_eq!(s.jump_time as usize, i + 1);
    }
    assert_eq!(s.vel.y, 10_000_200);
    for _ in 0..12 {
        let before = s.vel.y;
        s = step(&s, keys(false, false, true), DT, &p);
        assert_eq!(s.jump_time, 12);
        assert_eq!(s.vel.y, before - 163_503);
    }
    assert_eq!(s.pos.y, 3_570_888);
}

#[test]
fn window_coords_of_spawn() {
    let p = Params::standard();
    let r = to_window_coords(&PlayerState::spawn(&p), &p);
    assert_eq!(r, Rect { x: 20, y: 380, w: 40, h: 60 });
}

#[test]
fn out_of_range_state_is_not_well_formed() {
    let p = Params::standard();
    let mut s = PlayerState::spawn(&p);
    s.vel.x = 2_000_000_000_000;
    assert!(!s.is_wf(&p));
    s.vel.x = 0;
    s.jump_time = 13;
    assert!(!s.is_wf(&p));
}

#[test]
fn rest_without_dead_zone_gets_no_friction() {
    let mut p = Params::standard();
    p.min_xspeed = 0;
    let s = at(&p, 400_000, 300_166, 0, true);
    let r = step(&s, keys(false, false, false), 1, &p);
    assert_eq!(r.acc.x, 0);
    assert_eq!(r.vel.x, 0);
    let s = at(&p, 400_000, 2_000_000, 0, false);
    let r = step(&s, keys(false, false, false), 1, &p);
    assert_eq!(r.acc.x, 0);
    assert_eq!(r.vel.x, 0);
}

#[test]
fn box_coords_from_position_and_size() {
    let p = Params::standard();
    let s = PlayerState::spawn(&p);
    assert_eq!(box_window_coords(s.pos, s.size, &p), Some(Rect { x: 20, y: 380, w: 40, h: 60 }));
    assert_eq!(box_window_coords(s.pos, Vector2 { x: -1, y: 0 }, &p), None);
    assert_eq!(box_window_coords(Vector2 { x: i64::MAX, y: 0 }, s.size, &p), None);
}
