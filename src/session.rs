//! The server's authoritative world: one player per live session, key
//! state fed by inbound frames, and a fixed-step tick over every player.
//!
//! A connection's life maps onto the calls here: `accept` is the handshake
//! (a connection that does not offer the subprotocol is refused before any
//! state exists; one that does becomes active with a player at the spawn
//! point); while active, `on_frame` handles what it sends; a close frame
//! (answered with a close) or `on_error` ends it and removes its player, so
//! later ticks and snapshots no longer hold it.
use vstd::prelude::*;
use crate::input::{KeyEvent, KeyState};
use crate::physics::{Params, PlayerState, MAX_DT, stepped};
use crate::physics;
use crate::protocol::{Action, Frame, Message, decoded, negotiate, decode, protocol_name, reaction};
use crate::snapshot::{entries, encode_snapshot, entry_of, snapshot_bytes};

verus! {

/// One live session: its id, its player, and the buttons its client holds.
#[derive(Clone, Copy, Debug, PartialEq, Eq, Structural)]
pub struct Slot {
    pub id: u64,
    pub player: PlayerState,
    pub keys: KeyState,
}

/// Why a connection was not admitted.
#[derive(Clone, Copy, Debug, PartialEq, Eq, Structural)]
pub enum AcceptError {
    /// The client did not offer the server's subprotocol.
    ProtocolMismatch,
    /// Every session id has been handed out.
    IdsExhausted,
}

/// The world a tick advances: every live session's slot.
pub struct World {
    slots: Vec<Slot>,
    next_id: u64,
    params: Params,
}

/// A player after one tick: the stepped state, or the old one where the
/// stepped state would leave the representable range, so that one player's
/// fault never holds up the others.
pub open spec fn advanced(s: Slot, dt: int, p: Params) -> Slot {
    let n = stepped(s.player, s.keys, dt, p);
    if n.wf(p) { Slot { player: n, ..s } } else { s }
}

/// The slots after `id`'s client reports a key event.
pub open spec fn with_event(slots: Seq<Slot>, id: u64, ev: KeyEvent) -> Seq<Slot> {
    slots.map_values(|s: Slot| if s.id == id { Slot { keys: s.keys.after(ev), ..s } } else { s })
}

/// The slots without `id`'s.
pub open spec fn without(slots: Seq<Slot>, id: u64) -> Seq<Slot> {
    if exists|k: int| 0 <= k < slots.len() && #[trigger] slots[k].id == id {
        slots.remove(choose|k: int| 0 <= k < slots.len() && #[trigger] slots[k].id == id)
    } else {
        slots
    }
}

/// No two slots share an id.
pub open spec fn unique_ids(slots: Seq<Slot>) -> bool {
    forall|i: int, j: int| 0 <= i < slots.len() && 0 <= j < slots.len() && i != j ==> #[trigger] slots[i].id != #[trigger] slots[j].id
}

/// The slot of session `id`, if there is one.
pub open spec fn find(slots: Seq<Slot>, id: u64) -> Option<Slot> {
    if exists|k: int| 0 <= k < slots.len() && #[trigger] slots[k].id == id {
        Some(slots[choose|k: int| 0 <= k < slots.len() && #[trigger] slots[k].id == id])
    } else {
        None
    }
}

/// How the world changes on an inbound message of session `id`.
pub open spec fn world_after(slots: Seq<Slot>, id: u64, m: Option<Message>) -> Seq<Slot> {
    match m {
        Some(Message::Key(ev)) => with_event(slots, id, ev),
        Some(Message::Close(_)) => without(slots, id),
        _ => slots,
    }
}

impl World {
    /// The live slots.
    pub closed spec fn view(&self) -> Seq<Slot> {
        self.slots@
    }

    /// The constants the world runs with.
    pub closed spec fn params_spec(&self) -> Params {
        self.params
    }

    /// The id the next admitted session gets.
    pub closed spec fn next_id_spec(&self) -> u64 {
        self.next_id
    }

    /// Whether a fresh session id is still available.
    pub open spec fn ids_left(&self) -> bool {
        self.next_id_spec() < u64::MAX
    }

    /// Whether `id` names a live session.
    pub open spec fn has(&self, id: u64) -> bool {
        exists|i: int| 0 <= i < self@.len() && #[trigger] self@[i].id == id
    }

    /// Ids are unique and below the next one to hand out, and every player
    /// is in range.
    pub closed spec fn wf(&self) -> bool {
        &&& self.params.wf()
        &&& forall|i: int, j: int|
            0 <= i < j < self.slots@.len() ==> #[trigger] self.slots@[i].id != #[trigger] self.slots@[j].id
        &&& forall|i: int| 0 <= i < self.slots@.len() ==> #[trigger] self.slots@[i].id < self.next_id
        &&& forall|i: int| 0 <= i < self.slots@.len() ==> (#[trigger] self.slots@[i]).player.wf(self.params)
    }

    /// Live sessions have distinct ids.
    pub proof fn lemma_unique(&self)
        requires
            self.wf(),
        ensures
            unique_ids(self@),
    {
        assert forall|i: int, j: int| 0 <= i < self@.len() && 0 <= j < self@.len() && i != j implies #[trigger] self@[i].id
            != #[trigger] self@[j].id by {
            if i < j {
                assert(self.slots@[i].id != self.slots@[j].id);
            } else {
                assert(self.slots@[j].id != self.slots@[i].id);
            }
        }
    }

    /// An empty world.
    pub fn new(params: Params) -> (r: World)
        requires
            params.wf(),
        ensures
            r.wf(),
            r@ == Seq::<Slot>::empty(),
            r.params_spec() == params,
            r.next_id_spec() == 0,
    {
        World { slots: Vec::new(), next_id: 0, params }
    }

    /// The constants the world runs with.
    pub fn params(&self) -> (r: Params)
        ensures
            r == self.params_spec(),
    {
        self.params
    }

    /// Number of live sessions.
    pub fn len(&self) -> (r: usize)
        ensures
            r == self@.len(),
    {
        self.slots.len()
    }

    /// The slot of session `id`, if it is live.
    pub fn get(&self, id: u64) -> (r: Option<Slot>)
        requires
            self.wf(),
        ensures
            r.is_none() == !self.has(id),
            r matches Some(s) ==> s.id == id && self@.contains(s),
    {
        let mut i: usize = 0;
        while i < self.slots.len()
            invariant
                0 <= i <= self.slots@.len(),
                forall|j: int| 0 <= j < i ==> #[trigger] self.slots@[j].id != id,
            decreases self.slots@.len() - i,
        {
            if self.slots[i].id == id {
                assert(self@[i as int].id == id);
                return Some(self.slots[i]);
            }
            i = i + 1;
        }
        None
    }

    /// Admits a connection that offered the server's subprotocol: a new
    /// session with a player at the spawn point and no button held. A
    /// connection that did not offer it is refused and nothing is allocated.
    pub fn accept(&mut self, offered: &Vec<String>) -> (r: Result<u64, AcceptError>)
        requires
            old(self).wf(),
        ensures
            final(self).wf(),
            final(self).params_spec() == old(self).params_spec(),
            !(exists|i: int| 0 <= i < offered@.len() && #[trigger] offered@[i]@ == protocol_name())
                ==> r == Err::<u64, AcceptError>(AcceptError::ProtocolMismatch) && final(self)@ == old(self)@,
            (exists|i: int| 0 <= i < offered@.len() && #[trigger] offered@[i]@ == protocol_name())
                ==> (!old(self).ids_left() ==> r == Err::<u64, AcceptError>(AcceptError::IdsExhausted)
                && final(self)@ == old(self)@),
            (exists|i: int| 0 <= i < offered@.len() && #[trigger] offered@[i]@ == protocol_name())
                ==> (old(self).ids_left() ==> r is Ok),
            r is Err ==> final(self).next_id_spec() == old(self).next_id_spec(),
            r matches Ok(id) ==> {
                &&& id == old(self).next_id_spec()
                &&& final(self).next_id_spec() == id + 1
                &&& !old(self).has(id)
                &&& final(self)@ == old(self)@.push(
                    (Slot { id, player: PlayerState::spawn_spec(old(self).params_spec()), keys: KeyState::none_spec() }),
                )
            },
    {
        if !negotiate(offered) {
            return Err(AcceptError::ProtocolMismatch);
        }
        if self.next_id == u64::MAX {
            return Err(AcceptError::IdsExhausted);
        }
        let id = self.next_id;
        let slot = Slot { id, player: PlayerState::spawn(&self.params), keys: KeyState::none() };
        self.slots.push(slot);
        self.next_id = self.next_id + 1;
        proof {
            assert(forall|i: int| 0 <= i < old(self).slots@.len() ==> self.slots@[i] == old(self).slots@[i]);
        }
        Ok(id)
    }

    /// Ends session `id`: its slot leaves the world and the others stay as
    /// they were. Returns whether the session was live.
    pub fn close(&mut self, id: u64) -> (r: bool)
        requires
            old(self).wf(),
        ensures
            final(self).wf(),
            final(self).params_spec() == old(self).params_spec(),
            final(self).next_id_spec() == old(self).next_id_spec(),
            r == old(self).has(id),
            final(self)@ == without(old(self)@, id),
            r ==> final(self)@.len() == old(self)@.len() - 1,
            !r ==> final(self)@ == old(self)@,
    {
        let mut i: usize = 0;
        while i < self.slots.len()
            invariant
                0 <= i <= self.slots@.len(),
                forall|j: int| 0 <= j < i ==> #[trigger] self.slots@[j].id != id,
                self.slots@ == old(self).slots@,
                self.next_id == old(self).next_id,
                self.params == old(self).params,
                old(self).wf(),
            decreases self.slots@.len() - i,
        {
            if self.slots[i].id == id {
                let ghost old_slots = self.slots@;
                proof {
                    let k = choose|k: int| 0 <= k < old_slots.len() && #[trigger] old_slots[k].id == id;
                    assert(old_slots[i as int].id == id);
                    assert(old(self)@[i as int].id == id);
                    if k != i as int {
                        if k < i as int {
                            assert(old_slots[k].id != id);
                        } else {
                            assert(old_slots[i as int].id != old_slots[k].id);
                        }
                    }
                }
                self.slots.remove(i);
                proof {
                    assert forall|a: int| 0 <= a < self.slots@.len() implies #[trigger] old_slots.contains(
                        self.slots@[a],
                    ) by {
                        if a < i {
                            assert(self.slots@[a] == old_slots[a]);
                        } else {
                            assert(self.slots@[a] == old_slots[a + 1]);
                        }
                    }
                    assert forall|a: int, b: int|
                        0 <= a < b < self.slots@.len() implies #[trigger] self.slots@[a].id
                        != #[trigger] self.slots@[b].id by {
                        let oa = if a < i { a } else { a + 1 };
                        let ob = if b < i { b } else { b + 1 };
                        assert(self.slots@[a] == old_slots[oa]);
                        assert(self.slots@[b] == old_slots[ob]);
                    }
                    assert forall|a: int| 0 <= a < self.slots@.len() implies (#[trigger] self.slots@[a]).id
                        < self.next_id && self.slots@[a].player.wf(self.params) by {
                        let oa = if a < i { a } else { a + 1 };
                        assert(self.slots@[a] == old_slots[oa]);
                    }
                }
                return true;
            }
            i = i + 1;
        }
        false
    }

    /// Records a key event reported by session `id`'s client.
    pub fn apply_event(&mut self, id: u64, ev: KeyEvent)
        requires
            old(self).wf(),
        ensures
            final(self).wf(),
            final(self).params_spec() == old(self).params_spec(),
            final(self).next_id_spec() == old(self).next_id_spec(),
            final(self)@ == with_event(old(self)@, id, ev),
    {
        let ghost old_slots = self.slots@;
        let mut i: usize = 0;
        while i < self.slots.len()
            invariant
                0 <= i <= self.slots@.len(),
                self.slots@.len() == old_slots.len(),
                self.params == old(self).params,
                self.next_id == old(self).next_id,
                forall|j: int| 0 <= j < i ==> #[trigger] self.slots@[j]
                    == with_event(old_slots, id, ev)[j],
                forall|j: int| i <= j < self.slots@.len() ==> #[trigger] self.slots@[j] == old_slots[j],
            decreases self.slots@.len() - i,
        {
            let mut s = self.slots[i];
            if s.id == id {
                s.keys.apply(ev);
            }
            self.slots.set(i, s);
            i = i + 1;
        }
        proof {
            assert(self.slots@ =~= with_event(old_slots, id, ev));
        }
    }

    /// Handles one inbound frame of session `id`: a key token updates that
    /// session's buttons, a ping is answered with a pong carrying the same
    /// payload, a close ends the session and is answered with a close, and
    /// anything else (an unknown token included) is ignored.
    pub fn on_frame(&mut self, id: u64, f: Frame) -> (r: Action)
        requires
            old(self).wf(),
        ensures
            final(self).wf(),
            final(self).params_spec() == old(self).params_spec(),
            final(self).next_id_spec() == old(self).next_id_spec(),
            r == reaction(decoded(f)),
            final(self)@ == world_after(old(self)@, id, decoded(f)),
    {
        match decode(f) {
            Some(Message::Key(ev)) => {
                self.apply_event(id, ev);
                Action::Nothing
            },
            Some(Message::Ping(d)) => Action::Send(Frame::Pong(d)),
            Some(Message::Close(_)) => {
                self.close(id);
                Action::Shutdown(Frame::Close(None))
            },
            _ => Action::Nothing,
        }
    }

    /// A read or write failure on session `id`'s connection counts as a
    /// close: the session's slot leaves the world.
    pub fn on_error(&mut self, id: u64)
        requires
            old(self).wf(),
        ensures
            final(self).wf(),
            final(self).params_spec() == old(self).params_spec(),
            final(self).next_id_spec() == old(self).next_id_spec(),
            final(self)@ == without(old(self)@, id),
    {
        self.close(id);
    }

    /// The authoritative tick: every player advances by one step of `dt`
    /// with the buttons its client holds.
    pub fn tick(&mut self, dt: i64)
        requires
            old(self).wf(),
            0 <= dt <= MAX_DT,
        ensures
            final(self).wf(),
            final(self).params_spec() == old(self).params_spec(),
            final(self).next_id_spec() == old(self).next_id_spec(),
            final(self)@ == old(self)@.map_values(|s: Slot| advanced(s, dt as int, old(self).params_spec())),
    {
        let ghost old_slots = self.slots@;
        let p = self.params;
        let mut i: usize = 0;
        while i < self.slots.len()
            invariant
                0 <= i <= self.slots@.len(),
                self.slots@.len() == old_slots.len(),
                self.params == p,
                p == old(self).params,
                p.wf(),
                self.next_id == old(self).next_id,
                0 <= dt <= MAX_DT,
                forall|j: int| 0 <= j < old_slots.len() ==> #[trigger] old_slots[j].player.wf(p),
                forall|j: int| 0 <= j < i ==> #[trigger] self.slots@[j] == advanced(old_slots[j], dt as int, p),
                forall|j: int| i <= j < self.slots@.len() ==> #[trigger] self.slots@[j] == old_slots[j],
            decreases self.slots@.len() - i,
        {
            let mut s = self.slots[i];
            let n = physics::step(&s.player, s.keys, dt, &p);
            if n.is_wf(&p) {
                s.player = n;
            }
            self.slots.set(i, s);
            i = i + 1;
        }
        proof {
            assert(self.slots@ =~= old_slots.map_values(|s: Slot| advanced(s, dt as int, p)));
        }
    }

    /// The frame broadcast to every session after a tick: the encoded
    /// entries of every live slot, in order.
    pub fn broadcast(&self) -> (r: Frame)
        ensures
            r matches Frame::Binary(b) && b@ == snapshot_bytes(self@.map_values(|s: Slot| entry_of(s))),
    {
        let es = entries(&self.slots);
        Frame::Binary(encode_snapshot(&es))
    }

    /// A copy of every live slot, for broadcast after a tick.
    pub fn snapshot(&self) -> (r: Vec<Slot>)
        ensures
            r@ == self@,
    {
        let mut out: Vec<Slot> = Vec::new();
        let mut i: usize = 0;
        while i < self.slots.len()
            invariant
                0 <= i <= self.slots@.len(),
                out@ == self.slots@.take(i as int),
            decreases self.slots@.len() - i,
        {
            out.push(self.slots[i]);
            proof {
                assert(self.slots@.take(i as int + 1) =~= self.slots@.take(i as int).push(self.slots@[i as int]));
            }
            i = i + 1;
        }
        proof {
            assert(self.slots@.take(self.slots@.len() as int) =~= self.slots@);
        }
        out
    }
}

/// Closing one session leaves every other session's slot in the world,
/// unchanged, and takes nothing else out.
pub proof fn lemma_close_keeps_others(slots: Seq<Slot>, id: u64, other: Slot)
    requires
        other.id != id,
    ensures
        without(slots, id).contains(other) == slots.contains(other),
{
    if exists|k: int| 0 <= k < slots.len() && #[trigger] slots[k].id == id {
        let k = choose|k: int| 0 <= k < slots.len() && #[trigger] slots[k].id == id;
        let w = slots.remove(k);
        if slots.contains(other) {
            let j = choose|j: int| 0 <= j < slots.len() && slots[j] == other;
            assert(j != k);
            if j < k {
                assert(w[j] == other);
            } else {
                assert(w[j - 1] == other);
            }
        }
        if w.contains(other) {
            let j = choose|j: int| 0 <= j < w.len() && w[j] == other;
            if j < k {
                assert(slots[j] == other);
            } else {
                assert(slots[j + 1] == other);
            }
        }
    }
}

proof fn lemma_find_at(slots: Seq<Slot>, id: u64, k: int)
    requires
        unique_ids(slots),
        0 <= k < slots.len(),
        slots[k].id == id,
    ensures
        find(slots, id) == Some(slots[k]),
{
    let c = choose|c: int| 0 <= c < slots.len() && #[trigger] slots[c].id == id;
    assert(slots[c].id == id);
    if c != k {
        assert(slots[c].id != slots[k].id);
    }
}

proof fn lemma_find_none(slots: Seq<Slot>, id: u64)
    requires
        forall|k: int| 0 <= k < slots.len() ==> #[trigger] slots[k].id != id,
    ensures
        find(slots, id) is None,
{
}

/// Sessions do not interfere: a key event or a close of session `a` leaves
/// the slot of any other session `b` exactly as it was (present or absent),
/// and a tick changes `b`'s slot only by `b`'s own step.
pub proof fn lemma_sessions_independent(slots: Seq<Slot>, a: u64, b: u64, ev: KeyEvent, dt: int, p: Params)
    requires
        unique_ids(slots),
        a != b,
    ensures
        find(with_event(slots, a, ev), b) == find(slots, b),
        find(without(slots, a), b) == find(slots, b),
        find(slots.map_values(|s: Slot| advanced(s, dt, p)), b) == match find(slots, b) {
            Some(s) => Some(advanced(s, dt, p)),
            None => None,
        },
{
    let we = with_event(slots, a, ev);
    let ti = slots.map_values(|s: Slot| advanced(s, dt, p));
    assert forall|i: int| 0 <= i < we.len() implies #[trigger] we[i].id == slots[i].id by {}
    assert forall|i: int| 0 <= i < ti.len() implies #[trigger] ti[i].id == slots[i].id by {}
    assert(unique_ids(we)) by {
        assert forall|i: int, j: int| 0 <= i < we.len() && 0 <= j < we.len() && i != j implies #[trigger] we[i].id
            != #[trigger] we[j].id by {
            assert(we[i].id == slots[i].id);
            assert(we[j].id == slots[j].id);
        }
    }
    assert(unique_ids(ti)) by {
        assert forall|i: int, j: int| 0 <= i < ti.len() && 0 <= j < ti.len() && i != j implies #[trigger] ti[i].id
            != #[trigger] ti[j].id by {
            assert(ti[i].id == slots[i].id);
            assert(ti[j].id == slots[j].id);
        }
    }
    if exists|k: int| 0 <= k < slots.len() && #[trigger] slots[k].id == b {
        let k = choose|k: int| 0 <= k < slots.len() && #[trigger] slots[k].id == b;
        lemma_find_at(slots, b, k);
        assert(we[k] == slots[k]);
        lemma_find_at(we, b, k);
        assert(ti[k].id == b);
        lemma_find_at(ti, b, k);
    } else {
        assert forall|k: int| 0 <= k < we.len() implies #[trigger] we[k].id != b by {
            assert(we[k].id == slots[k].id);
        }
        assert forall|k: int| 0 <= k < ti.len() implies #[trigger] ti[k].id != b by {
            assert(ti[k].id == slots[k].id);
        }
        lemma_find_none(we, b);
        lemma_find_none(ti, b);
    }
    lemma_without_keeps(slots, a, b);
}

proof fn lemma_without_keeps(slots: Seq<Slot>, a: u64, b: u64)
    requires
        unique_ids(slots),
        a != b,
    ensures
        find(without(slots, a), b) == find(slots, b),
{
    if exists|k: int| 0 <= k < slots.len() && #[trigger] slots[k].id == a {
        let k = choose|k: int| 0 <= k < slots.len() && #[trigger] slots[k].id == a;
        let w = slots.remove(k);
        assert(w == without(slots, a));
        assert forall|i: int| 0 <= i < w.len() implies #[trigger] w[i] == (if i < k { slots[i] } else { slots[i + 1] }) by {}
        assert(unique_ids(w)) by {
            assert forall|i: int, j: int| 0 <= i < w.len() && 0 <= j < w.len() && i != j implies #[trigger] w[i].id
                != #[trigger] w[j].id by {
                let oi = if i < k { i } else { i + 1 };
                let oj = if j < k { j } else { j + 1 };
                assert(w[i] == slots[oi]);
                assert(w[j] == slots[oj]);
            }
        }
        if exists|m: int| 0 <= m < slots.len() && #[trigger] slots[m].id == b {
            let m = choose|m: int| 0 <= m < slots.len() && #[trigger] slots[m].id == b;
            lemma_find_at(slots, b, m);
            assert(m != k);
            let wm = if m < k { m } else { m - 1 };
            assert(w[wm] == slots[m]);
            lemma_find_at(w, b, wm);
        } else {
            assert forall|i: int| 0 <= i < w.len() implies #[trigger] w[i].id != b by {
                let oi = if i < k { i } else { i + 1 };
                assert(w[i] == slots[oi]);
            }
            lemma_find_none(w, b);
        }
    }
}

} // verus!
