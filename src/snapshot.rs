//! The snapshot payload: what a client needs to draw every player, as bytes.
//!
//! Each entry takes 44 bytes: the session id, the position and the size as
//! big-endian 64-bit integers (two's complement for the signed ones), then
//! the colour's four bytes.
use vstd::prelude::*;
use crate::physics::{Color, Vector2};
use crate::session::Slot;

verus! {

/// Bytes in one encoded entry.
pub const ENTRY_LEN: usize = 44;

/// What a client learns of one player.
#[derive(Clone, Copy, Debug, PartialEq, Eq, Structural)]
pub struct Entry {
    pub id: u64,
    pub pos: Vector2,
    pub size: Vector2,
    pub color: Color,
}

/// The entry that describes a slot.
pub open spec fn entry_of(s: Slot) -> Entry {
    Entry { id: s.id, pos: s.player.pos, size: s.player.size, color: s.player.color }
}

/// The eight bytes of `v`, most significant first.
pub open spec fn u64_bytes(v: u64) -> Seq<u8> {
    seq![
        (v >> 56u64) as u8,
        (v >> 48u64) as u8,
        (v >> 40u64) as u8,
        (v >> 32u64) as u8,
        (v >> 24u64) as u8,
        (v >> 16u64) as u8,
        (v >> 8u64) as u8,
        v as u8,
    ]
}

/// The value of the eight bytes of `b` from `at`, most significant first.
pub open spec fn read_u64(b: Seq<u8>, at: int) -> u64 {
    ((b[at] as u64) << 56u64) | ((b[at + 1] as u64) << 48u64) | ((b[at + 2] as u64) << 40u64) | ((
    b[at + 3] as u64) << 32u64) | ((b[at + 4] as u64) << 24u64) | ((b[at + 5] as u64) << 16u64) | ((
    b[at + 6] as u64) << 8u64) | (b[at + 7] as u64)
}

/// The bytes of one entry.
pub open spec fn entry_bytes(e: Entry) -> Seq<u8> {
    u64_bytes(e.id) + u64_bytes(e.pos.x as u64) + u64_bytes(e.pos.y as u64) + u64_bytes(
        e.size.x as u64,
    ) + u64_bytes(e.size.y as u64) + seq![e.color.r, e.color.g, e.color.b, e.color.a]
}

/// The entry whose bytes start at `at`.
pub open spec fn entry_at(b: Seq<u8>, at: int) -> Entry {
    Entry {
        id: read_u64(b, at),
        pos: Vector2 { x: read_u64(b, at + 8) as i64, y: read_u64(b, at + 16) as i64 },
        size: Vector2 { x: read_u64(b, at + 24) as i64, y: read_u64(b, at + 32) as i64 },
        color: Color { r: b[at + 40], g: b[at + 41], b: b[at + 42], a: b[at + 43] },
    }
}

/// The bytes of a snapshot: its entries' bytes, one after another.
pub open spec fn snapshot_bytes(es: Seq<Entry>) -> Seq<u8>
    decreases es.len(),
{
    if es.len() == 0 {
        Seq::empty()
    } else {
        snapshot_bytes(es.drop_last()) + entry_bytes(es.last())
    }
}

/// The snapshot that bytes hold: `None` unless they are whole entries.
pub open spec fn parse_snapshot(b: Seq<u8>) -> Option<Seq<Entry>> {
    if (b.len() as int) % (ENTRY_LEN as int) != 0 {
        None
    } else {
        Some(Seq::new(((b.len() as int) / (ENTRY_LEN as int)) as nat, |i: int| entry_at(b, i * (ENTRY_LEN as int))))
    }
}

fn push_u64(out: &mut Vec<u8>, v: u64)
    ensures
        final(out)@ == old(out)@ + u64_bytes(v),
{
    out.push(#[verifier::truncate] ((v >> 56u64) as u8));
    out.push(#[verifier::truncate] ((v >> 48u64) as u8));
    out.push(#[verifier::truncate] ((v >> 40u64) as u8));
    out.push(#[verifier::truncate] ((v >> 32u64) as u8));
    out.push(#[verifier::truncate] ((v >> 24u64) as u8));
    out.push(#[verifier::truncate] ((v >> 16u64) as u8));
    out.push(#[verifier::truncate] ((v >> 8u64) as u8));
    out.push(#[verifier::truncate] (v as u8));
    assert(final(out)@ =~= old(out)@ + u64_bytes(v));
}

fn get_u64(b: &Vec<u8>, at: usize) -> (r: u64)
    requires
        at + 8 <= b@.len(),
    ensures
        r == read_u64(b@, at as int),
{
    let _len = b.len();
    ((b[at] as u64) << 56u64) | ((b[at + 1] as u64) << 48u64) | ((b[at + 2] as u64) << 40u64) | ((
    b[at + 3] as u64) << 32u64) | ((b[at + 4] as u64) << 24u64) | ((b[at + 5] as u64) << 16u64) | ((
    b[at + 6] as u64) << 8u64) | (b[at + 7] as u64)
}

/// The entries of the world's slots, in order.
pub fn entries(slots: &Vec<Slot>) -> (r: Vec<Entry>)
    ensures
        r@ == slots@.map_values(|s: Slot| entry_of(s)),
{
    let mut out: Vec<Entry> = Vec::new();
    let mut i: usize = 0;
    while i < slots.len()
        invariant
            0 <= i <= slots@.len(),
            out@ == slots@.take(i as int).map_values(|s: Slot| entry_of(s)),
        decreases slots@.len() - i,
    {
        let s = slots[i];
        out.push(Entry { id: s.id, pos: s.player.pos, size: s.player.size, color: s.player.color });
        proof {
            assert(slots@.take(i as int + 1) =~= slots@.take(i as int).push(s));
            assert(slots@.take(i as int + 1).map_values(|s: Slot| entry_of(s)) =~= slots@.take(
                i as int,
            ).map_values(|s: Slot| entry_of(s)).push(entry_of(s)));
        }
        i = i + 1;
    }
    proof {
        assert(slots@.take(slots@.len() as int) =~= slots@);
    }
    out
}

/// The bytes of a snapshot.
pub fn encode_snapshot(es: &Vec<Entry>) -> (r: Vec<u8>)
    ensures
        r@ == snapshot_bytes(es@),
{
    let mut out: Vec<u8> = Vec::new();
    let mut i: usize = 0;
    while i < es.len()
        invariant
            0 <= i <= es@.len(),
            out@ == snapshot_bytes(es@.take(i as int)),
        decreases es@.len() - i,
    {
        let e = es[i];
        push_u64(&mut out, e.id);
        push_u64(&mut out, #[verifier::truncate] (e.pos.x as u64));
        push_u64(&mut out, #[verifier::truncate] (e.pos.y as u64));
        push_u64(&mut out, #[verifier::truncate] (e.size.x as u64));
        push_u64(&mut out, #[verifier::truncate] (e.size.y as u64));
        out.push(e.color.r);
        out.push(e.color.g);
        out.push(e.color.b);
        out.push(e.color.a);
        proof {
            let t = es@.take(i as int + 1);
            assert(t.drop_last() =~= es@.take(i as int));
            assert(t.last() == e);
            assert(out@ =~= snapshot_bytes(es@.take(i as int)) + entry_bytes(e));
        }
        i = i + 1;
    }
    proof {
        assert(es@.take(es@.len() as int) =~= es@);
    }
    out
}

/// The snapshot that bytes hold, or `None` unless they are whole entries.
pub fn decode_snapshot(b: &Vec<u8>) -> (r: Option<Vec<Entry>>)
    ensures
        r is None <==> parse_snapshot(b@) is None,
        r matches Some(v) ==> parse_snapshot(b@) == Some(v@),
{
    if b.len() % ENTRY_LEN != 0 {
        return None;
    }
    let len = b.len();
    let n = len / ENTRY_LEN;
    let mut out: Vec<Entry> = Vec::new();
    let mut i: usize = 0;
    while i < n
        invariant
            0 <= i <= n,
            len == b@.len(),
            n == (b@.len() as int) / (ENTRY_LEN as int),
            (b@.len() as int) % (ENTRY_LEN as int) == 0,
            out@ == Seq::new(i as nat, |k: int| entry_at(b@, k * (ENTRY_LEN as int))),
        decreases n - i,
    {
        assert(i * 44 + 44 <= b@.len()) by (nonlinear_arith)
            requires
                i < n,
                n == len / 44,
                len == b@.len(),
                b@.len() % 44 == 0,
        ;
        let at = i * ENTRY_LEN;
        let e = Entry {
            id: get_u64(b, at),
            pos: Vector2 { x: #[verifier::truncate] (get_u64(b, at + 8) as i64), y: #[verifier::truncate] (get_u64(b, at + 16) as i64) },
            size: Vector2 { x: #[verifier::truncate] (get_u64(b, at + 24) as i64), y: #[verifier::truncate] (get_u64(b, at + 32) as i64) },
            color: Color { r: b[at + 40], g: b[at + 41], b: b[at + 42], a: b[at + 43] },
        };
        out.push(e);
        proof {
            assert(out@ =~= Seq::new((i + 1) as nat, |k: int| entry_at(b@, k * (ENTRY_LEN as int))));
        }
        i = i + 1;
    }
    Some(out)
}

proof fn lemma_u64_round_trip(v: u64)
    ensures
        read_u64(u64_bytes(v), 0) == v,
{
    let b = u64_bytes(v);
    assert(b[0] == (v >> 56u64) as u8);
    assert(b[7] == v as u8);
    assert((((v >> 56u64) as u8 as u64) << 56u64) | (((v >> 48u64) as u8 as u64) << 48u64) | ((
    (v >> 40u64) as u8 as u64) << 40u64) | (((v >> 32u64) as u8 as u64) << 32u64) | (((v
        >> 24u64) as u8 as u64) << 24u64) | (((v >> 16u64) as u8 as u64) << 16u64) | (((v
        >> 8u64) as u8 as u64) << 8u64) | ((v as u8) as u64) == v) by (bit_vector);
}

proof fn lemma_i64_round_trip(x: i64)
    ensures
        (x as u64) as i64 == x,
{
    assert((x as u64) as i64 == x) by (bit_vector);
}

proof fn lemma_entry_round_trip(e: Entry)
    ensures
        entry_at(entry_bytes(e), 0) == e,
{
    let eb = entry_bytes(e);
    assert(eb.subrange(0, 8) =~= u64_bytes(e.id));
    assert(eb.subrange(8, 16) =~= u64_bytes(e.pos.x as u64));
    assert(eb.subrange(16, 24) =~= u64_bytes(e.pos.y as u64));
    assert(eb.subrange(24, 32) =~= u64_bytes(e.size.x as u64));
    assert(eb.subrange(32, 40) =~= u64_bytes(e.size.y as u64));
    lemma_read_sub(eb, 0);
    lemma_read_sub(eb, 8);
    lemma_read_sub(eb, 16);
    lemma_read_sub(eb, 24);
    lemma_read_sub(eb, 32);
    lemma_u64_round_trip(e.id);
    lemma_u64_round_trip(e.pos.x as u64);
    lemma_u64_round_trip(e.pos.y as u64);
    lemma_u64_round_trip(e.size.x as u64);
    lemma_u64_round_trip(e.size.y as u64);
    lemma_i64_round_trip(e.pos.x);
    lemma_i64_round_trip(e.pos.y);
    lemma_i64_round_trip(e.size.x);
    lemma_i64_round_trip(e.size.y);
    assert(eb[40] == e.color.r);
    assert(eb[41] == e.color.g);
    assert(eb[42] == e.color.b);
    assert(eb[43] == e.color.a);
}

proof fn lemma_read_sub(b: Seq<u8>, at: int)
    requires
        0 <= at,
        at + 8 <= b.len(),
    ensures
        read_u64(b, at) == read_u64(b.subrange(at, at + 8), 0),
{
}

proof fn lemma_entry_at_sub(b: Seq<u8>, at: int)
    requires
        0 <= at,
        at + 44 <= b.len(),
    ensures
        entry_at(b, at) == entry_at(b.subrange(at, at + 44), 0),
{
    let sub = b.subrange(at, at + 44);
    lemma_read_sub(b, at);
    lemma_read_sub(b, at + 8);
    lemma_read_sub(b, at + 16);
    lemma_read_sub(b, at + 24);
    lemma_read_sub(b, at + 32);
    lemma_read_sub(sub, 0);
    lemma_read_sub(sub, 8);
    lemma_read_sub(sub, 16);
    lemma_read_sub(sub, 24);
    lemma_read_sub(sub, 32);
    assert(b.subrange(at + 8, at + 16) =~= sub.subrange(8, 16));
    assert(b.subrange(at, at + 8) =~= sub.subrange(0, 8));
    assert(b.subrange(at + 16, at + 24) =~= sub.subrange(16, 24));
    assert(b.subrange(at + 24, at + 32) =~= sub.subrange(24, 32));
    assert(b.subrange(at + 32, at + 40) =~= sub.subrange(32, 40));
}

proof fn lemma_snapshot_layout(es: Seq<Entry>)
    ensures
        snapshot_bytes(es).len() == es.len() * 44,
        forall|i: int|
            0 <= i < es.len() ==> snapshot_bytes(es).subrange(i * 44, i * 44 + 44) == entry_bytes(
                #[trigger] es[i],
            ),
    decreases es.len(),
{
    if es.len() > 0 {
        let p = es.drop_last();
        lemma_snapshot_layout(p);
        let sp = snapshot_bytes(p);
        let b = snapshot_bytes(es);
        assert(b == sp + entry_bytes(es.last()));
        assert forall|i: int| 0 <= i < es.len() implies b.subrange(i * 44, i * 44 + 44) == entry_bytes(
            #[trigger] es[i],
        ) by {
            if i < es.len() - 1 {
                assert(i * 44 + 44 <= p.len() * 44) by (nonlinear_arith)
                    requires
                        i < p.len(),
                ;
                assert(p[i] == es[i]);
                assert(sp.subrange(i * 44, i * 44 + 44) == entry_bytes(p[i]));
                assert(b.subrange(i * 44, i * 44 + 44) =~= sp.subrange(i * 44, i * 44 + 44));
            } else {
                assert(i * 44 == p.len() * 44);
                assert(b.subrange(i * 44, i * 44 + 44) =~= entry_bytes(es.last()));
            }
        }
    }
}

/// Decoding the bytes of a snapshot gives the snapshot back.
pub proof fn lemma_snapshot_round_trip(es: Seq<Entry>)
    ensures
        parse_snapshot(snapshot_bytes(es)) == Some(es),
{
    let b = snapshot_bytes(es);
    lemma_snapshot_layout(es);
    assert((es.len() * 44) % 44 == 0 && (es.len() * 44) / 44 == es.len()) by (nonlinear_arith);
    let parsed = Seq::new(((b.len() as int) / 44) as nat, |i: int| entry_at(b, i * 44));
    assert forall|i: int| 0 <= i < es.len() implies #[trigger] parsed[i] == es[i] by {
        assert(i * 44 + 44 <= es.len() * 44) by (nonlinear_arith)
            requires
                i < es.len(),
        ;
        lemma_entry_at_sub(b, i * 44);
        lemma_entry_round_trip(es[i]);
    }
    assert(parsed =~= es);
}

} // verus!
