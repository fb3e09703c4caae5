//! Paint commands and their binary frames.
use vstd::prelude::*;

verus! {

/// Width of the canvas, in cells.
pub const WIDTH: i32 = 640;

/// Height of the canvas, in cells.
pub const HEIGHT: i32 = 480;

/// Length of a binary paint frame: two 32-bit coordinates and three channels.
pub const FRAME_LEN: usize = 11;

/// One paint command: a cell and the color it is to take.
#[derive(Clone, Copy, Debug, PartialEq, Eq, Structural)]
pub struct PixelUpdate {
    pub x: i32,
    pub y: i32,
    pub r: u8,
    pub g: u8,
    pub b: u8,
}

/// Why a binary frame could not be read as a paint command.
#[derive(Clone, Copy, Debug, PartialEq, Eq, Structural)]
pub enum DecodeError {
    /// The frame is shorter than a paint command.
    Truncated,
}

impl PixelUpdate {
    pub open spec fn in_bounds(self) -> bool {
        0 <= self.x < WIDTH && 0 <= self.y < HEIGHT
    }

    /// Whether the update names a cell of the canvas.
    pub fn is_in_bounds(&self) -> (r: bool)
        ensures
            r == self.in_bounds(),
    {
        0 <= self.x && self.x < WIDTH && 0 <= self.y && self.y < HEIGHT
    }
}

/// The four little-endian bytes of a 32-bit integer in two's complement.
pub open spec fn le_bytes(v: i32) -> Seq<u8> {
    let u = v as u32;
    seq![(u & 0xff) as u8, ((u >> 8u32) & 0xff) as u8, ((u >> 16u32) & 0xff) as u8, (u >> 24u32) as u8]
}

/// The 32-bit integer whose little-endian bytes are `b[at..at + 4]`.
pub open spec fn from_le_bytes(b: Seq<u8>, at: int) -> i32 {
    (b[at] as u32 | (b[at + 1] as u32) << 8u32 | (b[at + 2] as u32) << 16u32 | (b[at + 3] as u32) << 24u32) as i32
}

/// The frame of a tuple of coordinates and channels: each integer in turn,
/// fixed-width and little-endian.
pub open spec fn tuple_frame(t: (i32, i32, u8, u8, u8)) -> Seq<u8> {
    le_bytes(t.0) + le_bytes(t.1) + seq![t.2, t.3, t.4]
}

/// The tuple that the first bytes of a frame hold.
pub open spec fn tuple_of_frame(b: Seq<u8>) -> (i32, i32, u8, u8, u8) {
    (from_le_bytes(b, 0), from_le_bytes(b, 4), b[8], b[9], b[10])
}

/// The binary frame of a paint command.
pub open spec fn frame_of(u: PixelUpdate) -> Seq<u8> {
    tuple_frame((u.x, u.y, u.r, u.g, u.b))
}

/// What reading a frame gives: a command if the frame is long enough, its
/// trailing bytes ignored.
pub open spec fn decoded(b: Seq<u8>) -> Result<PixelUpdate, DecodeError> {
    if b.len() < FRAME_LEN {
        Err(DecodeError::Truncated)
    } else {
        let t = tuple_of_frame(b);
        Ok(PixelUpdate { x: t.0, y: t.1, r: t.2, g: t.3, b: t.4 })
    }
}

#[verifier::external_type_specification]
#[verifier::external_body]
pub struct ExBincodeErrorKind(bincode::ErrorKind);

/// Relies on bincode::serialize: its legacy options write integers fixed-width
/// and little-endian, a tuple field after field with no length, and writing
/// into a growable vector does not fail.
#[verifier::external_body]
fn bincode_serialize(t: &(i32, i32, u8, u8, u8)) -> (r: Result<Vec<u8>, Box<bincode::ErrorKind>>)
    ensures
        r is Ok,
        r is Ok ==> r->Ok_0@ == tuple_frame(*t),
{
    bincode::serialize(t)
}

/// Relies on bincode::deserialize: with the same options it reads the tuple
/// from the first eleven bytes, allows trailing bytes, and fails on a frame
/// that ends early.
#[verifier::external_body]
fn bincode_deserialize(b: &[u8]) -> (r: Result<(i32, i32, u8, u8, u8), Box<bincode::ErrorKind>>)
    ensures
        r is Ok <==> b@.len() >= FRAME_LEN,
        r is Ok ==> r->Ok_0 == tuple_of_frame(b@),
{
    bincode::deserialize(b)
}

/// Encodes a paint command as its binary frame.
pub fn encode(u: &PixelUpdate) -> (r: Vec<u8>)
    ensures
        r@ == frame_of(*u),
{
    match bincode_serialize(&(u.x, u.y, u.r, u.g, u.b)) {
        Ok(v) => v,
        Err(_) => Vec::new(),
    }
}

/// Reads a paint command from a binary frame.
pub fn decode(b: &[u8]) -> (r: Result<PixelUpdate, DecodeError>)
    ensures
        r == decoded(b@),
{
    match bincode_deserialize(b) {
        Ok(t) => Ok(PixelUpdate { x: t.0, y: t.1, r: t.2, g: t.3, b: t.4 }),
        Err(_) => Err(DecodeError::Truncated),
    }
}

proof fn lemma_le_bytes_round_trip(v: i32)
    ensures
        from_le_bytes(le_bytes(v), 0) == v,
{
    let u = v as u32;
    assert(((u & 0xff) as u8 as u32 | (((u >> 8u32) & 0xff) as u8 as u32) << 8u32
        | (((u >> 16u32) & 0xff) as u8 as u32) << 16u32 | ((u >> 24u32) as u8 as u32) << 24u32) == u)
        by (bit_vector);
    assert((u as i32) == v) by (bit_vector)
        requires u == v as u32;
}

/// Decoding the frame of a paint command gives that command back.
pub proof fn lemma_round_trip(u: PixelUpdate)
    ensures
        decoded(frame_of(u)) == Ok::<PixelUpdate, DecodeError>(u),
{
    let f = frame_of(u);
    lemma_le_bytes_round_trip(u.x);
    lemma_le_bytes_round_trip(u.y);
    assert(f.subrange(0, 4) == le_bytes(u.x));
    assert(f.subrange(4, 8) == le_bytes(u.y));
    assert(from_le_bytes(f, 0) == from_le_bytes(le_bytes(u.x), 0));
    assert(from_le_bytes(f, 4) == from_le_bytes(le_bytes(u.y), 0));
}

} // verus!
