use pixel_canvas::codec::{decode, encode, DecodeError, PixelUpdate};

fn px(x: i32, y: i32, r: u8, g: u8, b: u8) -> PixelUpdate {
    PixelUpdate { x, y, r, g, b }
}

#[test]
fn encode_is_fixed_little_endian_layout() {
    let f = encode(&px(10, 10, 255, 0, 0));
    assert_eq!(f, vec![10, 0, 0, 0, 10, 0, 0, 0, 255, 0, 0]);
}

#[test]
fn encode_negative_and_large_coordinates() {
    let f = encode(&px(-1, 0x01020304, 1, 2, 3));
    assert_eq!(f, vec![255, 255, 255, 255, 4, 3, 2, 1, 1, 2, 3]);
}

#[test]
fn decode_reads_a_frame() {
    let f = vec![0x80, 0x02, 0, 0, 0xdf, 0x01, 0, 0, 7, 8, 9];
    assert_eq!(decode(&f), Ok(px(640, 479, 7, 8, 9)));
}

#[test]
fn decode_ignores_trailing_bytes() {
    let f = vec![1, 0, 0, 0, 2, 0, 0, 0, 3, 4, 5, 99, 100];
    assert_eq!(decode(&f), Ok(px(1, 2, 3, 4, 5)));
}

#[test]
fn decode_rejects_short_frames() {
    assert_eq!(decode(&[]), Err(DecodeError::Truncated));
    assert_eq!(decode(&[1, 0, 0, 0, 2, 0, 0, 0, 3, 4]), Err(DecodeError::Truncated));
}

#[test]
fn round_trip_on_several_commands() {
    for u in [
        px(0, 0, 0, 0, 0),
        px(639, 479, 255, 255, 255),
        px(10, 10, 255, 0, 0),
        px(i32::MIN, i32::MAX, 1, 128, 254),
        px(-5, 700, 9, 8, 7),
    ] {
        assert_eq!(decode(&encode(&u)), Ok(u));
    }
}

#[test]
fn in_bounds_edges() {
    assert!(px(0, 0, 0, 0, 0).is_in_bounds());
    assert!(px(639, 479, 0, 0, 0).is_in_bounds());
    assert!(!px(640, 0, 0, 0, 0).is_in_bounds());
    assert!(!px(0, 480, 0, 0, 0).is_in_bounds());
    assert!(!px(-1, 0, 0, 0, 0).is_in_bounds());
    assert!(!px(0, -1, 0, 0, 0).is_in_bounds());
}
