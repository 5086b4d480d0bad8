use jump_game::physics::{Color, Vector2};
use jump_game::snapshot::{decode_snapshot, encode_snapshot, Entry};

fn entry(id: u64, x: i64, y: i64) -> Entry {
    Entry {
        id,
        pos: Vector2 { x, y },
        size: Vector2 { x: 400_000, y: 600_000 },
        color: Color { r: 255, g: 0, b: 0, a: 255 },
    }
}

#[test]
fn snapshot_bytes_are_big_endian() {
    let b = encode_snapshot(&vec![entry(1, -1, 258)]);
    assert_eq!(b.len(), 44);
    assert_eq!(&b[0..8], &[0, 0, 0, 0, 0, 0, 0, 1]);
    assert_eq!(&b[8..16], &[255; 8]);
    assert_eq!(&b[16..24], &[0, 0, 0, 0, 0, 0, 1, 2]);
    assert_eq!(&b[40..44], &[255, 0, 0, 255]);
}

#[test]
fn snapshot_round_trips() {
    let es = vec![entry(3, 400_000, 700_000), entry(9, i64::MIN, i64::MAX), entry(u64::MAX, 0, -5)];
    let b = encode_snapshot(&es);
    assert_eq!(b.len(), 132);
    assert_eq!(decode_snapshot(&b), Some(es));
}

#[test]
fn partial_snapshot_is_rejected() {
    let mut b = encode_snapshot(&vec![entry(1, 2, 3)]);
    b.pop();
    assert_eq!(decode_snapshot(&b), None);
    assert_eq!(decode_snapshot(&vec![0; 45]), None);
}
