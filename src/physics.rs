//! Per-player physics in fixed point.
//!
//! Lengths are in micrometres, times in microseconds, speeds in micrometres
//! per second and accelerations in micrometres per second squared. A product
//! of a rate and a duration is divided by `SCALE` and truncated toward zero,
//! as Rust's integer division does, so that motion to the left and to the
//! right is treated alike.
use vstd::prelude::*;
use vstd::arithmetic::div_mod::{lemma_div_is_ordered, lemma_div_is_ordered_by_denominator, lemma_div_pos_is_pos, lemma_div_by_multiple};
use crate::input::KeyState;

verus! {

/// Micro-units in one unit (one metre, one second).
pub const SCALE: i64 = 1_000_000;

/// Longest time step accepted, in microseconds.
pub const MAX_DT: i64 = 1_000_000;

/// Largest force magnitude a parameter set may hold.
pub const FORCE_LIMIT: i64 = 1_000_000_000;

/// Largest dead-zone speed a parameter set may hold.
pub const DEAD_ZONE_LIMIT: i64 = 1_000_000_000;

/// Largest world dimension a parameter set may hold.
pub const DIM_LIMIT: i64 = 100_000_000_000;

/// Largest coordinate magnitude a player may have.
pub const POS_LIMIT: i64 = 1_000_000_000_000;

/// Largest speed magnitude a player may have.
pub const VEL_LIMIT: i64 = 1_000_000_000_000;

/// A pair of fixed-point coordinates.
#[derive(Clone, Copy, Debug, PartialEq, Eq, Structural)]
pub struct Vector2 {
    pub x: i64,
    pub y: i64,
}

/// A colour as red, green, blue and opacity bytes.
#[derive(Clone, Copy, Debug, PartialEq, Eq, Structural)]
pub struct Color {
    pub r: u8,
    pub g: u8,
    pub b: u8,
    pub a: u8,
}

/// The tunable constants of the simulation.
#[derive(Clone, Copy, Debug, PartialEq, Eq, Structural)]
pub struct Params {
    /// Downward acceleration always applied.
    pub gravity: i64,
    /// Upward acceleration while a jump is sustained.
    pub jump_force: i64,
    /// Horizontal acceleration while running.
    pub drift_force: i64,
    /// Friction while on the floor.
    pub gnd_drag_force: i64,
    /// Friction while in the air.
    pub air_drag_force: i64,
    /// Ticks a jump impulse may last.
    pub jump_duration: u32,
    /// Ticks a run impulse may last.
    pub drift_duration: u32,
    /// Horizontal speeds below this count as standing still.
    pub min_xspeed: i64,
    /// Vertical speeds below this count as standing still.
    pub min_yspeed: i64,
    /// Width of the world.
    pub width: i64,
    /// Height of the world.
    pub height: i64,
    /// Half the width of a player's box.
    pub box_width: i64,
    /// Half the height of a player's box; the floor for a player's centre.
    pub box_height: i64,
    /// Length of one screen pixel.
    pub pixel_size: i64,
}

/// The full state of one player.
#[derive(Clone, Copy, Debug, PartialEq, Eq, Structural)]
pub struct PlayerState {
    pub pos: Vector2,
    pub vel: Vector2,
    pub acc: Vector2,
    pub size: Vector2,
    pub color: Color,
    /// Ticks the current jump impulse has lasted.
    pub jump_time: u32,
    /// Ticks the current run impulse has lasted.
    pub drift_time: u32,
    /// Whether the player rests on the floor.
    pub grounded: bool,
}

/// A screen rectangle in pixels: left, top, width, height.
#[derive(Clone, Copy, Debug, PartialEq, Eq, Structural)]
pub struct Rect {
    pub x: i64,
    pub y: i64,
    pub w: i64,
    pub h: i64,
}

/// Magnitude of an integer.
pub open spec fn abs(v: int) -> int {
    if v < 0 { -v } else { v }
}

/// `n / d` for a positive `d`, truncated toward zero.
pub open spec fn trunc_div(n: int, d: int) -> int {
    if n >= 0 { n / d } else { -((-n) / d) }
}

/// `a * dt / SCALE`, truncated toward zero.
pub open spec fn scaled(a: int, dt: int) -> int {
    trunc_div(a * dt, SCALE as int)
}

impl Params {
    /// Every constant lies in the range the integrator is built for.
    pub open spec fn wf(self) -> bool {
        &&& 0 <= self.gravity <= FORCE_LIMIT
        &&& 0 <= self.jump_force <= FORCE_LIMIT
        &&& 0 <= self.drift_force <= FORCE_LIMIT
        &&& 0 <= self.gnd_drag_force <= FORCE_LIMIT
        &&& 0 <= self.air_drag_force <= FORCE_LIMIT
        &&& 0 <= self.min_xspeed <= DEAD_ZONE_LIMIT
        &&& 0 <= self.min_yspeed <= DEAD_ZONE_LIMIT
        &&& 0 < self.width <= DIM_LIMIT
        &&& 0 <= self.box_width <= DIM_LIMIT
        &&& 0 <= self.box_height < self.height <= DIM_LIMIT
        &&& 0 < self.pixel_size <= DIM_LIMIT
    }

    /// Friction for a player that is or is not on the floor.
    pub open spec fn drag(self, grounded: bool) -> int {
        if grounded { self.gnd_drag_force as int } else { self.air_drag_force as int }
    }

    /// How far above the floor (and below the ceiling) a clamped player sits.
    pub open spec fn band_y(self, dt: int) -> int {
        scaled(self.min_yspeed as int, dt)
    }

    /// How far from a wall a clamped player sits.
    pub open spec fn band_x(self, dt: int) -> int {
        scaled(self.min_xspeed as int, dt)
    }

    /// The constants the game ships with: gravity 9.81 m/s², jump force 50,
    /// drift force 5, drag 0.5 on the floor and 0.1 in the air, a 12-tick
    /// jump, a 40-tick run, dead zones of 0.01 m/s, a 6.4 m by 4.8 m world,
    /// a 0.2 m by 0.3 m half-box, and 100 pixels to the metre.
    pub fn standard() -> (r: Params)
        ensures
            r.wf(),
            r.gravity == 9_810_000,
            r.jump_force == 50_000_000,
            r.drift_force == 5_000_000,
            r.gnd_drag_force == 500_000,
            r.air_drag_force == 100_000,
            r.jump_duration == 12,
            r.drift_duration == 40,
            r.min_xspeed == 10_000,
            r.min_yspeed == 10_000,
            r.width == 6_400_000,
            r.height == 4_800_000,
            r.box_width == 200_000,
            r.box_height == 300_000,
            r.pixel_size == 10_000,
    {
        Params {
            gravity: 9_810_000,
            jump_force: 50_000_000,
            drift_force: 5_000_000,
            gnd_drag_force: 500_000,
            air_drag_force: 100_000,
            jump_duration: 12,
            drift_duration: 40,
            min_xspeed: 10_000,
            min_yspeed: 10_000,
            width: 6_400_000,
            height: 4_800_000,
            box_width: 200_000,
            box_height: 300_000,
            pixel_size: 10_000,
        }
    }
}

impl PlayerState {
    /// The state is in the range the integrator is built for, and its impulse
    /// timers are within their windows.
    pub open spec fn wf(self, p: Params) -> bool {
        &&& abs(self.pos.x as int) <= POS_LIMIT
        &&& abs(self.pos.y as int) <= POS_LIMIT
        &&& abs(self.vel.x as int) <= VEL_LIMIT
        &&& abs(self.vel.y as int) <= VEL_LIMIT
        &&& 0 <= self.size.x <= POS_LIMIT
        &&& 0 <= self.size.y <= POS_LIMIT
        &&& self.jump_time <= p.jump_duration
        &&& self.drift_time <= p.drift_duration
    }

    /// Executable form of `wf`.
    pub fn is_wf(&self, p: &Params) -> (r: bool)
        ensures
            r == self.wf(*p),
    {
        -POS_LIMIT <= self.pos.x && self.pos.x <= POS_LIMIT
            && -POS_LIMIT <= self.pos.y && self.pos.y <= POS_LIMIT
            && -VEL_LIMIT <= self.vel.x && self.vel.x <= VEL_LIMIT
            && -VEL_LIMIT <= self.vel.y && self.vel.y <= VEL_LIMIT
            && 0 <= self.size.x && self.size.x <= POS_LIMIT
            && 0 <= self.size.y && self.size.y <= POS_LIMIT
            && self.jump_time <= p.jump_duration
            && self.drift_time <= p.drift_duration
    }

    /// Where a new player appears: at rest, two box widths from the left
    /// wall, a tenth of a metre above a box standing on the floor.
    pub open spec fn spawn_spec(p: Params) -> PlayerState {
        PlayerState {
            pos: Vector2 { x: (2 * p.box_width) as i64, y: (2 * p.box_height + 100_000) as i64 },
            vel: Vector2 { x: 0, y: 0 },
            acc: Vector2 { x: 0, y: 0 },
            size: Vector2 { x: (2 * p.box_width) as i64, y: (2 * p.box_height) as i64 },
            color: Color { r: 255, g: 0, b: 0, a: 255 },
            jump_time: 0,
            drift_time: 0,
            grounded: false,
        }
    }

    /// A new player at the spawn point.
    pub fn spawn(p: &Params) -> (r: PlayerState)
        requires
            p.wf(),
        ensures
            r == PlayerState::spawn_spec(*p),
            r.wf(*p),
    {
        PlayerState {
            pos: Vector2 { x: 2 * p.box_width, y: 2 * p.box_height + 100_000 },
            vel: Vector2 { x: 0, y: 0 },
            acc: Vector2 { x: 0, y: 0 },
            size: Vector2 { x: 2 * p.box_width, y: 2 * p.box_height },
            color: Color { r: 255, g: 0, b: 0, a: 255 },
            jump_time: 0,
            drift_time: 0,
            grounded: false,
        }
    }
}

/// Stage one: gravity, or the jump impulse while it lasts, and the jump timer.
pub open spec fn vertical_stage(s: PlayerState, keys: KeyState, p: Params) -> PlayerState {
    if keys.jump && s.jump_time < p.jump_duration {
        PlayerState {
            acc: Vector2 { y: p.jump_force, ..s.acc },
            jump_time: (s.jump_time + 1) as u32,
            ..s
        }
    } else if s.grounded {
        PlayerState { acc: Vector2 { y: (-p.gravity) as i64, ..s.acc }, jump_time: 0, ..s }
    } else {
        PlayerState {
            acc: Vector2 { y: (-p.gravity) as i64, ..s.acc },
            jump_time: p.jump_duration,
            ..s
        }
    }
}

/// The state with horizontal velocity and acceleration both zero.
pub open spec fn halted_x(s: PlayerState) -> PlayerState {
    PlayerState { vel: Vector2 { x: 0, ..s.vel }, acc: Vector2 { x: 0, ..s.acc }, ..s }
}

/// Friction against the current horizontal motion, snapping to rest rather
/// than reversing it, and the run timer reset.
pub open spec fn friction(s: PlayerState, dt: int, p: Params) -> PlayerState {
    let d = p.drag(s.grounded);
    let moved = if s.vel.x > 0 && s.vel.x >= p.min_xspeed {
        if s.vel.x - scaled(d, dt) < p.min_xspeed {
            halted_x(s)
        } else {
            PlayerState { acc: Vector2 { x: (-d) as i64, ..s.acc }, ..s }
        }
    } else if s.vel.x < 0 && s.vel.x <= -p.min_xspeed {
        if s.vel.x + scaled(d, dt) > -p.min_xspeed {
            halted_x(s)
        } else {
            PlayerState { acc: Vector2 { x: d as i64, ..s.acc }, ..s }
        }
    } else {
        halted_x(s)
    };
    PlayerState { drift_time: 0, ..moved }
}

/// Stage two: the run impulse while it lasts, else friction.
pub open spec fn horizontal_stage(s: PlayerState, keys: KeyState, dt: int, p: Params) -> PlayerState {
    if keys.left && s.drift_time < p.drift_duration {
        PlayerState {
            acc: Vector2 { x: (-p.drift_force) as i64, ..s.acc },
            drift_time: (s.drift_time + 1) as u32,
            ..s
        }
    } else if keys.right && s.drift_time < p.drift_duration {
        PlayerState {
            acc: Vector2 { x: p.drift_force, ..s.acc },
            drift_time: (s.drift_time + 1) as u32,
            ..s
        }
    } else {
        friction(s, dt, p)
    }
}

/// Stage three: semi-implicit Euler, velocity first, then position.
pub open spec fn integrate_stage(s: PlayerState, dt: int) -> PlayerState {
    let vx = s.vel.x + scaled(s.acc.x as int, dt);
    let vy = s.vel.y + scaled(s.acc.y as int, dt);
    PlayerState {
        vel: Vector2 { x: vx as i64, y: vy as i64 },
        pos: Vector2 { x: (s.pos.x + scaled(vx, dt)) as i64, y: (s.pos.y + scaled(vy, dt)) as i64 },
        ..s
    }
}

/// Stage four: floor and ceiling, then the left and right walls.
pub open spec fn bounds_stage(s: PlayerState, dt: int, p: Params) -> PlayerState {
    let by = p.band_y(dt);
    let bx = p.band_x(dt);
    let v = if s.pos.y <= p.box_height {
        PlayerState {
            pos: Vector2 { y: (p.box_height + by) as i64, ..s.pos },
            vel: Vector2 { y: 0, ..s.vel },
            ..s
        }
    } else if s.pos.y >= p.height {
        PlayerState {
            pos: Vector2 { y: (p.height - by) as i64, ..s.pos },
            vel: Vector2 { y: 0, ..s.vel },
            ..s
        }
    } else {
        s
    };
    if v.pos.x <= 0 {
        PlayerState { pos: Vector2 { x: bx as i64, ..v.pos }, vel: Vector2 { x: 0, ..v.vel }, ..v }
    } else if v.pos.x >= p.width {
        PlayerState {
            pos: Vector2 { x: (p.width - bx) as i64, ..v.pos },
            vel: Vector2 { x: 0, ..v.vel },
            ..v
        }
    } else {
        v
    }
}

/// Stage five: the grounded flag, derived from the clamped position.
pub open spec fn grounded_stage(s: PlayerState, dt: int, p: Params) -> PlayerState {
    PlayerState { grounded: s.pos.y <= p.box_height + p.band_y(dt), ..s }
}

/// One tick of the integrator: the five stages in order.
pub open spec fn stepped(s: PlayerState, keys: KeyState, dt: int, p: Params) -> PlayerState {
    grounded_stage(
        bounds_stage(
            integrate_stage(horizontal_stage(vertical_stage(s, keys, p), keys, dt, p), dt),
            dt,
            p,
        ),
        dt,
        p,
    )
}

/// The state after the first `n` ticks from `s`, tick `i` taking input
/// `keys[i]` and time step `dts[i]`.
pub open spec fn state_after(s: PlayerState, keys: Seq<KeyState>, dts: Seq<i64>, p: Params, n: nat) -> PlayerState
    decreases n,
{
    if n == 0 {
        s
    } else {
        let prev = state_after(s, keys, dts, p, (n - 1) as nat);
        stepped(prev, keys[n - 1], dts[n - 1] as int, p)
    }
}

/// Truncation keeps the sign and never grows the magnitude, and it is odd.
pub proof fn lemma_trunc_div(n: int, d: int)
    requires
        0 < d,
    ensures
        abs(trunc_div(n, d)) <= abs(n),
        n >= 0 ==> trunc_div(n, d) >= 0,
        n <= 0 ==> trunc_div(n, d) <= 0,
        trunc_div(-n, d) == -trunc_div(n, d),
{
    if n >= 0 {
        lemma_div_pos_is_pos(n, d);
        lemma_div_is_ordered_by_denominator(n, 1, d);
    } else {
        lemma_div_pos_is_pos(-n, d);
        lemma_div_is_ordered_by_denominator(-n, 1, d);
    }
    if n == 0 {
        assert(0int / d == 0);
    }
}

/// A scaled quantity keeps the sign of the rate and is no larger than it,
/// since a step lasts at most one unit of time.
pub proof fn lemma_scaled(a: int, dt: int)
    requires
        0 <= dt <= MAX_DT,
    ensures
        abs(scaled(a, dt)) <= abs(a),
        a >= 0 ==> scaled(a, dt) >= 0,
        a <= 0 ==> scaled(a, dt) <= 0,
        scaled(-a, dt) == -scaled(a, dt),
{
    let m = abs(a);
    assert(m * dt <= m * 1_000_000) by (nonlinear_arith)
        requires
            0 <= m,
            0 <= dt <= 1_000_000,
    ;
    assert(0 <= m * dt) by (nonlinear_arith)
        requires
            0 <= m,
            0 <= dt,
    ;
    assert((-a) * dt == -(a * dt)) by (nonlinear_arith);
    assert(abs(a * dt) == m * dt) by (nonlinear_arith)
        requires
            m == abs(a),
            0 <= dt,
    ;
    lemma_div_is_ordered(m * dt, m * 1_000_000, 1_000_000);
    lemma_div_by_multiple(m, 1_000_000);
    lemma_trunc_div(a * dt, 1_000_000);
    lemma_trunc_div(-(a * dt), 1_000_000);
    if a >= 0 {
        assert(a * dt >= 0) by (nonlinear_arith)
            requires
                a >= 0,
                dt >= 0,
        ;
    } else {
        assert(a * dt <= 0) by (nonlinear_arith)
            requires
                a < 0,
                dt >= 0,
        ;
    }
}

/// `a * dt / SCALE`, truncated toward zero.
fn scale(a: i64, dt: i64) -> (r: i64)
    requires
        abs(a as int) <= 2 * VEL_LIMIT,
        0 <= dt <= MAX_DT,
    ensures
        r == scaled(a as int, dt as int),
        abs(r as int) <= abs(a as int),
{
    proof {
        lemma_scaled(a as int, dt as int);
    }
    assert(-2_000_000_000_000_000_000 <= a * dt <= 2_000_000_000_000_000_000) by (nonlinear_arith)
        requires
            -2_000_000_000_000 <= a <= 2_000_000_000_000,
            0 <= dt <= 1_000_000,
    ;
    let prod = a * dt;
    if prod >= 0 {
        prod / SCALE
    } else {
        -((-prod) / SCALE)
    }
}

/// `n / d`, truncated toward zero.
fn div_toward_zero(n: i64, d: i64) -> (r: i64)
    requires
        0 < d,
        abs(n as int) <= 4 * POS_LIMIT,
    ensures
        r == trunc_div(n as int, d as int),
{
    proof {
        lemma_trunc_div(n as int, d as int);
    }
    if n >= 0 {
        n / d
    } else {
        -((-n) / d)
    }
}

fn vertical(s: PlayerState, keys: KeyState, p: &Params) -> (r: PlayerState)
    requires
        p.wf(),
        s.jump_time <= p.jump_duration,
    ensures
        r == vertical_stage(s, keys, *p),
{
    let mut r = s;
    if keys.jump && s.jump_time < p.jump_duration {
        r.acc.y = p.jump_force;
        r.jump_time = s.jump_time + 1;
    } else if s.grounded {
        r.acc.y = -p.gravity;
        r.jump_time = 0;
    } else {
        r.acc.y = -p.gravity;
        r.jump_time = p.jump_duration;
    }
    r
}

fn horizontal(s: PlayerState, keys: KeyState, dt: i64, p: &Params) -> (r: PlayerState)
    requires
        p.wf(),
        s.wf(*p),
        0 <= dt <= MAX_DT,
    ensures
        r == horizontal_stage(s, keys, dt as int, *p),
{
    let mut r = s;
    if keys.left && s.drift_time < p.drift_duration {
        r.acc.x = -p.drift_force;
        r.drift_time = s.drift_time + 1;
    } else if keys.right && s.drift_time < p.drift_duration {
        r.acc.x = p.drift_force;
        r.drift_time = s.drift_time + 1;
    } else {
        let drag = if s.grounded { p.gnd_drag_force } else { p.air_drag_force };
        let d = scale(drag, dt);
        if s.vel.x > 0 && s.vel.x >= p.min_xspeed {
            if s.vel.x - d < p.min_xspeed {
                r.vel.x = 0;
                r.acc.x = 0;
            } else {
                r.acc.x = -drag;
            }
        } else if s.vel.x < 0 && s.vel.x <= -p.min_xspeed {
            if s.vel.x + d > -p.min_xspeed {
                r.vel.x = 0;
                r.acc.x = 0;
            } else {
                r.acc.x = drag;
            }
        } else {
            r.vel.x = 0;
            r.acc.x = 0;
        }
        r.drift_time = 0;
    }
    r
}

fn integrate(s: PlayerState, dt: i64) -> (r: PlayerState)
    requires
        abs(s.pos.x as int) <= POS_LIMIT,
        abs(s.pos.y as int) <= POS_LIMIT,
        abs(s.vel.x as int) <= VEL_LIMIT,
        abs(s.vel.y as int) <= VEL_LIMIT,
        abs(s.acc.x as int) <= FORCE_LIMIT,
        abs(s.acc.y as int) <= FORCE_LIMIT,
        0 <= dt <= MAX_DT,
    ensures
        r == integrate_stage(s, dt as int),
        abs(r.pos.x as int) <= 3 * POS_LIMIT,
        abs(r.pos.y as int) <= 3 * POS_LIMIT,
        abs(r.vel.x as int) <= VEL_LIMIT + FORCE_LIMIT,
        abs(r.vel.y as int) <= VEL_LIMIT + FORCE_LIMIT,
{
    let mut r = s;
    r.vel.x = s.vel.x + scale(s.acc.x, dt);
    r.vel.y = s.vel.y + scale(s.acc.y, dt);
    r.pos.x = s.pos.x + scale(r.vel.x, dt);
    r.pos.y = s.pos.y + scale(r.vel.y, dt);
    r
}

fn bounds(s: PlayerState, dt: i64, p: &Params) -> (r: PlayerState)
    requires
        p.wf(),
        0 <= dt <= MAX_DT,
    ensures
        r == bounds_stage(s, dt as int, *p),
{
    proof {
        lemma_scaled(p.min_xspeed as int, dt as int);
        lemma_scaled(p.min_yspeed as int, dt as int);
    }
    let by = scale(p.min_yspeed, dt);
    let bx = scale(p.min_xspeed, dt);
    let mut r = s;
    if s.pos.y <= p.box_height {
        r.pos.y = p.box_height + by;
        r.vel.y = 0;
    } else if s.pos.y >= p.height {
        r.pos.y = p.height - by;
        r.vel.y = 0;
    }
    if r.pos.x <= 0 {
        r.pos.x = bx;
        r.vel.x = 0;
    } else if r.pos.x >= p.width {
        r.pos.x = p.width - bx;
        r.vel.x = 0;
    }
    r
}

fn settle(s: PlayerState, dt: i64, p: &Params) -> (r: PlayerState)
    requires
        p.wf(),
        0 <= dt <= MAX_DT,
    ensures
        r == grounded_stage(s, dt as int, *p),
{
    proof {
        lemma_scaled(p.min_yspeed as int, dt as int);
    }
    let by = scale(p.min_yspeed, dt);
    let mut r = s;
    r.grounded = s.pos.y <= p.box_height + by;
    r
}

/// One tick of the integrator for one player: gravity or the jump impulse,
/// the run impulse or friction, integration, the world's bounds, and the
/// grounded flag, in that order. The timers stay within their windows and
/// the player within the world.
pub fn step(s: &PlayerState, keys: KeyState, dt: i64, p: &Params) -> (r: PlayerState)
    requires
        p.wf(),
        s.wf(*p),
        0 <= dt <= MAX_DT,
    ensures
        r == stepped(*s, keys, dt as int, *p),
        r.jump_time == (if keys.jump && s.jump_time < p.jump_duration {
            s.jump_time + 1
        } else if s.grounded {
            0
        } else {
            p.jump_duration as int
        }),
        r.drift_time == (if (keys.left || keys.right) && s.drift_time < p.drift_duration {
            s.drift_time + 1
        } else {
            0
        }),
        r.jump_time <= p.jump_duration,
        r.drift_time <= p.drift_duration,
        abs(r.pos.x as int) <= POS_LIMIT,
        abs(r.pos.y as int) <= POS_LIMIT,
        p.band_x(dt as int) <= p.width ==> 0 <= r.pos.x <= p.width,
        p.band_y(dt as int) <= p.height - p.box_height ==> p.box_height <= r.pos.y <= p.height,
        r.grounded == (r.pos.y <= p.box_height + p.band_y(dt as int)),
{
    proof {
        lemma_scaled(p.min_xspeed as int, dt as int);
        lemma_scaled(p.min_yspeed as int, dt as int);
    }
    let a = vertical(*s, keys, p);
    let b = horizontal(a, keys, dt, p);
    let c = integrate(b, dt);
    let d = bounds(c, dt, p);
    settle(d, dt, p)
}

/// The screen rectangle of a box centred at `pos` with size `size`: its
/// top-left corner, with the screen's vertical axis pointing down, and its
/// size, in pixels.
pub open spec fn box_rect(pos: Vector2, size: Vector2, p: Params) -> Rect {
    Rect {
        x: trunc_div(pos.x - p.box_width, p.pixel_size as int) as i64,
        y: trunc_div(p.height - (pos.y + p.box_height), p.pixel_size as int) as i64,
        w: trunc_div(size.x as int, p.pixel_size as int) as i64,
        h: trunc_div(size.y as int, p.pixel_size as int) as i64,
    }
}

/// The screen rectangle of a player.
pub open spec fn drawable(s: PlayerState, p: Params) -> Rect {
    box_rect(s.pos, s.size, p)
}

/// Whether a position and size lie in the range that drawing accepts.
pub open spec fn drawable_range(pos: Vector2, size: Vector2) -> bool {
    &&& abs(pos.x as int) <= POS_LIMIT
    &&& abs(pos.y as int) <= POS_LIMIT
    &&& 0 <= size.x <= POS_LIMIT
    &&& 0 <= size.y <= POS_LIMIT
}

/// Where to draw a box given its centre and size, as a snapshot entry
/// carries them; `None` when they lie outside the range drawing accepts.
pub fn box_window_coords(pos: Vector2, size: Vector2, p: &Params) -> (r: Option<Rect>)
    requires
        p.wf(),
    ensures
        r is Some <==> drawable_range(pos, size),
        r matches Some(rect) ==> rect == box_rect(pos, size, *p),
{
    if !(-POS_LIMIT <= pos.x && pos.x <= POS_LIMIT && -POS_LIMIT <= pos.y && pos.y <= POS_LIMIT
        && 0 <= size.x && size.x <= POS_LIMIT && 0 <= size.y && size.y <= POS_LIMIT) {
        return None;
    }
    proof {
        lemma_trunc_div(pos.x - p.box_width, p.pixel_size as int);
        lemma_trunc_div(p.height - (pos.y + p.box_height), p.pixel_size as int);
        lemma_trunc_div(size.x as int, p.pixel_size as int);
        lemma_trunc_div(size.y as int, p.pixel_size as int);
    }
    Some(
        Rect {
            x: div_toward_zero(pos.x - p.box_width, p.pixel_size),
            y: div_toward_zero(p.height - (pos.y + p.box_height), p.pixel_size),
            w: div_toward_zero(size.x, p.pixel_size),
            h: div_toward_zero(size.y, p.pixel_size),
        },
    )
}

/// Where to draw a player on the screen.
pub fn to_window_coords(s: &PlayerState, p: &Params) -> (r: Rect)
    requires
        p.wf(),
        drawable_range(s.pos, s.size),
    ensures
        r == drawable(*s, *p),
{
    match box_window_coords(s.pos, s.size, p) {
        Some(r) => r,
        None => Rect { x: 0, y: 0, w: 0, h: 0 },
    }
}

/// Clamping is stable: a player at rest with no button held, inside the
/// floor band, stays inside it and grounded; and one at least the clamp
/// distance from both walls keeps its horizontal position.
pub proof fn lemma_clamp_stable(s: PlayerState, dt: int, p: Params)
    requires
        p.wf(),
        s.wf(p),
        0 <= dt <= MAX_DT,
        s.vel.x == 0,
        s.vel.y == 0,
        p.box_height + p.band_y(dt) < p.height,
    ensures
        ({
            let r = stepped(s, KeyState::none_spec(), dt, p);
            &&& p.box_height < s.pos.y <= p.box_height + p.band_y(dt) ==> {
                &&& p.box_height < r.pos.y <= p.box_height + p.band_y(dt)
                &&& r.grounded
            }
            &&& p.band_x(dt) <= s.pos.x <= p.width - p.band_x(dt) ==> r.pos.x == s.pos.x
        }),
{
    lemma_scaled(p.min_xspeed as int, dt);
    lemma_scaled(p.min_yspeed as int, dt);
    lemma_scaled(p.gravity as int, dt);
    lemma_scaled(-p.gravity, dt);
    lemma_scaled(p.drag(s.grounded), dt);
    lemma_scaled(-p.drag(s.grounded), dt);
    lemma_scaled(0, dt);
    let a = vertical_stage(s, KeyState::none_spec(), p);
    let b = horizontal_stage(a, KeyState::none_spec(), dt, p);
    let vy = b.vel.y + scaled(b.acc.y as int, dt);
    lemma_scaled(vy, dt);
    let vx = b.vel.x + scaled(b.acc.x as int, dt);
    assert(vx == 0);
    lemma_scaled(vx, dt);
}

/// Friction depends on floor contact: with neither horizontal button held,
/// the run timer resets; a player at rest or inside the dead zone stays at
/// rest with no horizontal acceleration; a faster one is decelerated by the
/// floor's or the air's drag, chosen by its contact at the start of the tick,
/// and loses that drag's worth of speed, or stops (it reached the dead zone,
/// or a wall). Away from the walls the loss is exact.
pub proof fn lemma_drag(s: PlayerState, keys: KeyState, dt: int, p: Params)
    requires
        p.wf(),
        s.wf(p),
        0 <= dt <= MAX_DT,
        !keys.left,
        !keys.right,
    ensures
        ({
            let r = stepped(s, keys, dt, p);
            let d = scaled(p.drag(s.grounded), dt);
            &&& r.drift_time == 0
            &&& (s.vel.x == 0 || abs(s.vel.x as int) < p.min_xspeed) ==> r.vel.x == 0 && r.acc.x == 0
            &&& s.vel.x > 0 && s.vel.x >= p.min_xspeed ==> {
                &&& s.vel.x - d < p.min_xspeed ==> r.vel.x == 0 && r.acc.x == 0
                &&& s.vel.x - d >= p.min_xspeed ==> {
                    &&& r.acc.x == -p.drag(s.grounded)
                    &&& (r.vel.x == s.vel.x - d || r.vel.x == 0)
                    &&& 0 < s.pos.x + scaled(s.vel.x - d, dt) < p.width ==> r.vel.x == s.vel.x - d
                }
            }
            &&& s.vel.x < 0 && s.vel.x <= -p.min_xspeed ==> {
                &&& s.vel.x + d > -p.min_xspeed ==> r.vel.x == 0 && r.acc.x == 0
                &&& s.vel.x + d <= -p.min_xspeed ==> {
                    &&& r.acc.x == p.drag(s.grounded)
                    &&& (r.vel.x == s.vel.x + d || r.vel.x == 0)
                    &&& 0 < s.pos.x + scaled(s.vel.x + d, dt) < p.width ==> r.vel.x == s.vel.x + d
                }
            }
        }),
{
    lemma_scaled(p.drag(s.grounded), dt);
    lemma_scaled(-p.drag(s.grounded), dt);
    lemma_scaled(0, dt);
}

/// The jump latch: without the jump button a player on the floor rearms
/// its jump and one in the air keeps it spent; and a player in the air
/// whose jump is spent gets no impulse, whatever is held.
pub proof fn lemma_jump_latch(s: PlayerState, keys: KeyState, dt: int, p: Params)
    requires
        p.wf(),
        s.wf(p),
        0 <= dt <= MAX_DT,
    ensures
        ({
            let r = stepped(s, keys, dt, p);
            &&& !keys.jump && s.grounded ==> r.jump_time == 0
            &&& !keys.jump && !s.grounded ==> r.jump_time == p.jump_duration
            &&& !s.grounded && s.jump_time == p.jump_duration ==> {
                &&& r.jump_time == p.jump_duration
                &&& r.acc.y == -p.gravity
            }
        }),
{
}

/// `r` is the run from `s`: the states after one tick, two ticks, and so
/// on, up to the end of the inputs or up to (not including) the first state
/// out of the representable range.
pub open spec fn is_run(s: PlayerState, keys: Seq<KeyState>, dts: Seq<i64>, p: Params, r: Seq<PlayerState>) -> bool {
    &&& r.len() <= keys.len()
    &&& forall|i: int| 0 <= i < r.len() ==> #[trigger] r[i] == state_after(s, keys, dts, p, (i + 1) as nat)
    &&& forall|i: int| 0 <= i < r.len() ==> (#[trigger] r[i]).wf(p)
    &&& r.len() < keys.len() ==> !state_after(s, keys, dts, p, (r.len() + 1) as nat).wf(p)
}

/// Runs the integrator over a sequence of inputs and time steps and returns
/// every state visited, the start excluded. The run stops early, before the
/// first state that would leave the representable range.
pub fn simulate(s: &PlayerState, keys: &Vec<KeyState>, dts: &Vec<i64>, p: &Params) -> (r: Vec<PlayerState>)
    requires
        p.wf(),
        s.wf(*p),
        keys@.len() == dts@.len(),
        forall|i: int| 0 <= i < dts@.len() ==> 0 <= #[trigger] dts@[i] <= MAX_DT,
    ensures
        is_run(*s, keys@, dts@, *p, r@),
{
    let mut out: Vec<PlayerState> = Vec::new();
    let mut cur = *s;
    let mut i: usize = 0;
    while i < keys.len()
        invariant
            0 <= i <= keys@.len(),
            keys@.len() == dts@.len(),
            p.wf(),
            forall|j: int| 0 <= j < dts@.len() ==> 0 <= #[trigger] dts@[j] <= MAX_DT,
            out@.len() == i,
            cur == state_after(*s, keys@, dts@, *p, i as nat),
            cur.wf(*p),
            forall|j: int| 0 <= j < i ==> #[trigger] out@[j] == state_after(*s, keys@, dts@, *p, (j + 1) as nat),
            forall|j: int| 0 <= j < i ==> (#[trigger] out@[j]).wf(*p),
        decreases keys@.len() - i,
    {
        let n = step(&cur, keys[i], dts[i], p);
        if !n.is_wf(p) {
            return out;
        }
        out.push(n);
        cur = n;
        i = i + 1;
    }
    out
}

/// Runs are deterministic: from equal starting states under equal inputs
/// and time steps, two runs are identical, state for state.
pub proof fn lemma_deterministic(
    s1: PlayerState,
    s2: PlayerState,
    keys1: Seq<KeyState>,
    keys2: Seq<KeyState>,
    dts1: Seq<i64>,
    dts2: Seq<i64>,
    p: Params,
    r1: Seq<PlayerState>,
    r2: Seq<PlayerState>,
)
    requires
        s1 == s2,
        keys1 == keys2,
        dts1 == dts2,
        is_run(s1, keys1, dts1, p, r1),
        is_run(s2, keys2, dts2, p, r2),
    ensures
        r1 == r2,
{
    if r1.len() < r2.len() {
        assert(r2[r1.len() as int].wf(p));
    }
    if r2.len() < r1.len() {
        assert(r1[r2.len() as int].wf(p));
    }
    assert(r1 =~= r2);
}

} // verus!
