//! One face of nine stickers packed into a 32-bit word, three bits per slot.
use vstd::prelude::*;

verus! {

/// Bits of one slot.
pub const PIECE: u32 = 0b111;

/// A face word uses the low 27 bits only.
pub const FACE_BOUND: u32 = 0x800_0000;

/// The color code held by the slot that starts at bit `s`.
pub open spec fn field(w: u32, s: u32) -> u32 {
    (w >> s) & 7u32
}

/// The color code in slot `i` (0..9, reading order) of face word `w`.
pub open spec fn slot(w: u32, i: int) -> u32 {
    field(w, (3 * i) as u32)
}

/// A face word: nine slots with codes in 0..=6, upper bits clear.
pub open spec fn face_wf(w: u32) -> bool {
    &&& w < FACE_BOUND
    &&& forall|i: int| 0 <= i < 9 ==> #[trigger] slot(w, i) <= 6
}

/// `w` with the slot at bit `a` replaced by the slot of `src` at bit `b`.
pub open spec fn put(w: u32, a: u32, src: u32, b: u32) -> u32 {
    (w & !(7u32 << a)) | (((src >> b) & 7u32) << a)
}

proof fn lemma_put_bv(w: u32, a: u32, src: u32, b: u32, c: u32)
    by (bit_vector)
    requires
        a <= 24 && a % 3 == 0,
        b <= 24 && b % 3 == 0,
        c <= 24 && c % 3 == 0,
    ensures
        field(put(w, a, src, b), c) == if c == a { field(src, b) } else { field(w, c) },
        w < 0x800_0000 ==> put(w, a, src, b) < 0x800_0000,
{
}

/// Two face words that agree on all nine slots are the same word.
pub proof fn lemma_face_ext(x: u32, y: u32)
    requires
        x < FACE_BOUND,
        y < FACE_BOUND,
        forall|i: int| 0 <= i < 9 ==> #[trigger] slot(x, i) == slot(y, i),
    ensures
        x == y,
{
    assert(slot(x, 0) == slot(y, 0) && slot(x, 1) == slot(y, 1) && slot(x, 2) == slot(y, 2));
    assert(slot(x, 3) == slot(y, 3) && slot(x, 4) == slot(y, 4) && slot(x, 5) == slot(y, 5));
    assert(slot(x, 6) == slot(y, 6) && slot(x, 7) == slot(y, 7) && slot(x, 8) == slot(y, 8));
    lemma_face_ext_bv(x, y);
}

proof fn lemma_face_ext_bv(x: u32, y: u32)
    by (bit_vector)
    requires
        x < 0x800_0000,
        y < 0x800_0000,
        field(x, 0) == field(y, 0),
        field(x, 3) == field(y, 3),
        field(x, 6) == field(y, 6),
        field(x, 9) == field(y, 9),
        field(x, 12) == field(y, 12),
        field(x, 15) == field(y, 15),
        field(x, 18) == field(y, 18),
        field(x, 21) == field(y, 21),
        field(x, 24) == field(y, 24),
    ensures
        x == y,
{
}

/// Copies slot `j` of `src` into slot `i` of `w`; every other slot of `w` stays.
pub fn transfer(w: u32, i: u32, src: u32, j: u32) -> (r: u32)
    requires
        i < 9,
        j < 9,
    ensures
        forall|k: int| 0 <= k < 9 ==> #[trigger] slot(r, k) == if k == i { slot(src, j as int) } else { slot(w, k) },
        w < FACE_BOUND ==> r < FACE_BOUND,
{
    let a = 3 * i;
    let b = 3 * j;
    proof {
        assert forall|k: int| 0 <= k < 9 implies #[trigger] slot(put(w, a, src, b), k) == if k == i { slot(src, j as int) } else { slot(w, k) } by {
            lemma_put_bv(w, a, src, b, (3 * k) as u32);
        }
        lemma_put_bv(w, a, src, b, 0);
    }
    (w & !(PIECE << a)) | (((src >> b) & PIECE) << a)
}


/// Slot of the old face that a clockwise quarter turn brings to slot `i`
/// (corners 0 -> 2 -> 8 -> 6 -> 0, edges 1 -> 5 -> 7 -> 3 -> 1).
pub open spec fn cw_slot(i: int) -> int {
    if i == 0 { 6 } else if i == 1 { 3 } else if i == 2 { 0 } else if i == 3 { 7 } else if i == 5 { 1 }
    else if i == 6 { 8 } else if i == 7 { 5 } else if i == 8 { 2 } else { i }
}

/// Slot of the old face that a counter-clockwise quarter turn brings to slot `i`.
pub open spec fn ccw_slot(i: int) -> int {
    if i == 0 { 2 } else if i == 1 { 5 } else if i == 2 { 8 } else if i == 3 { 1 } else if i == 5 { 7 }
    else if i == 6 { 0 } else if i == 7 { 3 } else if i == 8 { 6 } else { i }
}

/// Slot of the old face that a half turn brings to slot `i`.
pub open spec fn half_slot(i: int) -> int {
    8 - i
}

pub const PIECE0: u32 = 0b000_000_000_000_000_000_000_000_111;
pub const PIECE1: u32 = 0b000_000_000_000_000_000_000_111_000;
pub const PIECE2: u32 = 0b000_000_000_000_000_000_111_000_000;
pub const PIECE3: u32 = 0b000_000_000_000_000_111_000_000_000;
pub const PIECE4: u32 = 0b000_000_000_000_111_000_000_000_000;
pub const PIECE5: u32 = 0b000_000_000_111_000_000_000_000_000;
pub const PIECE6: u32 = 0b000_000_111_000_000_000_000_000_000;
pub const PIECE7: u32 = 0b000_111_000_000_000_000_000_000_000;
pub const PIECE8: u32 = 0b111_000_000_000_000_000_000_000_000;

pub const SHIFT2: u32 = 6;
pub const SHIFT4: u32 = 12;
pub const SHIFT6: u32 = 18;
pub const SHIFT8: u32 = 24;

pub open spec fn rot_cw_word(w: u32) -> u32 {
    (w & PIECE4) | ((w & (PIECE0 | PIECE5)) << SHIFT2) | ((w & PIECE1) << SHIFT4) | ((w & PIECE2) << SHIFT6)
        | ((w & (PIECE3 | PIECE8)) >> SHIFT2) | ((w & PIECE7) >> SHIFT4) | ((w & PIECE6) >> SHIFT6)
}

pub open spec fn rot_ccw_word(w: u32) -> u32 {
    (w & PIECE4) | ((w & (PIECE1 | PIECE6)) << SHIFT2) | ((w & PIECE3) << SHIFT4) | ((w & PIECE0) << SHIFT6)
        | ((w & (PIECE2 | PIECE7)) >> SHIFT2) | ((w & PIECE5) >> SHIFT4) | ((w & PIECE8) >> SHIFT6)
}

pub open spec fn rot_half_word(w: u32) -> u32 {
    ((w & 0o7u32) << 24u32) | ((w & 0o70u32) << 18u32) | ((w & 0o700u32) << 12u32) | ((w & 0o7000u32) << 6u32)
        | (w & 0o7_0000u32) | ((w & 0o70_0000u32) >> 6u32) | ((w & 0o700_0000u32) >> 12u32)
        | ((w & 0o7000_0000u32) >> 18u32) | ((w & 0o7_0000_0000u32) >> 24u32)
}

proof fn lemma_rot_cw_bv(w: u32)
    by (bit_vector)
    ensures
        field(rot_cw_word(w), 0) == field(w, 18),
        field(rot_cw_word(w), 3) == field(w, 9),
        field(rot_cw_word(w), 6) == field(w, 0),
        field(rot_cw_word(w), 9) == field(w, 21),
        field(rot_cw_word(w), 12) == field(w, 12),
        field(rot_cw_word(w), 15) == field(w, 3),
        field(rot_cw_word(w), 18) == field(w, 24),
        field(rot_cw_word(w), 21) == field(w, 15),
        field(rot_cw_word(w), 24) == field(w, 6),
        rot_cw_word(w) < 0x800_0000,
{
}

proof fn lemma_rot_ccw_bv(w: u32)
    by (bit_vector)
    ensures
        field(rot_ccw_word(w), 0) == field(w, 6),
        field(rot_ccw_word(w), 3) == field(w, 15),
        field(rot_ccw_word(w), 6) == field(w, 24),
        field(rot_ccw_word(w), 9) == field(w, 3),
        field(rot_ccw_word(w), 12) == field(w, 12),
        field(rot_ccw_word(w), 15) == field(w, 21),
        field(rot_ccw_word(w), 18) == field(w, 0),
        field(rot_ccw_word(w), 21) == field(w, 9),
        field(rot_ccw_word(w), 24) == field(w, 18),
        rot_ccw_word(w) < 0x800_0000,
{
}

proof fn lemma_rot_half_bv(w: u32)
    by (bit_vector)
    ensures
        field(rot_half_word(w), 0) == field(w, 24),
        field(rot_half_word(w), 3) == field(w, 21),
        field(rot_half_word(w), 6) == field(w, 18),
        field(rot_half_word(w), 9) == field(w, 15),
        field(rot_half_word(w), 12) == field(w, 12),
        field(rot_half_word(w), 15) == field(w, 9),
        field(rot_half_word(w), 18) == field(w, 6),
        field(rot_half_word(w), 21) == field(w, 3),
        field(rot_half_word(w), 24) == field(w, 0),
        rot_half_word(w) < 0x800_0000,
{
}

/// Clockwise quarter turn of a face word; the center stays.
pub fn rotate_face(face: u32) -> (r: u32)
    ensures
        forall|i: int| 0 <= i < 9 ==> #[trigger] slot(r, i) == slot(face, cw_slot(i)),
        r < FACE_BOUND,
{
    let part4 = face & PIECE4;

    let part05 = (face & (PIECE0 | PIECE5)) << SHIFT2;
    let part1 = (face & PIECE1) << SHIFT4;
    let part2 = (face & PIECE2) << SHIFT6;

    let part38 = (face & (PIECE3 | PIECE8)) >> SHIFT2;
    let part7 = (face & PIECE7) >> SHIFT4;
    let part6 = (face & PIECE6) >> SHIFT6;

    let r = part4 | part05 | part1 | part2 | part38 | part7 | part6;
    proof {
        assert(r == rot_cw_word(face));
        lemma_rot_cw_bv(face);
    }
    r
}

/// Counter-clockwise quarter turn of a face word; the center stays.
pub fn rotate_face_(face: u32) -> (r: u32)
    ensures
        forall|i: int| 0 <= i < 9 ==> #[trigger] slot(r, i) == slot(face, ccw_slot(i)),
        r < FACE_BOUND,
{
    let part4 = face & PIECE4;

    let part16 = (face & (PIECE1 | PIECE6)) << SHIFT2;
    let part3 = (face & PIECE3) << SHIFT4;
    let part0 = (face & PIECE0) << SHIFT6;

    let part27 = (face & (PIECE2 | PIECE7)) >> SHIFT2;
    let part5 = (face & PIECE5) >> SHIFT4;
    let part8 = (face & PIECE8) >> SHIFT6;

    let r = part4 | part16 | part3 | part0 | part27 | part5 | part8;
    proof {
        assert(r == rot_ccw_word(face));
        lemma_rot_ccw_bv(face);
    }
    r
}

/// Half turn of a face word: slot `i` and slot `8 - i` swap.
pub fn rotate_face2(face: u32) -> (r: u32)
    ensures
        forall|i: int| 0 <= i < 9 ==> #[trigger] slot(r, i) == slot(face, half_slot(i)),
        r < FACE_BOUND,
{
    let r = ((face & PIECE0) << SHIFT8) | ((face & PIECE1) << SHIFT6) | ((face & PIECE2) << SHIFT4)
        | ((face & PIECE3) << SHIFT2) | (face & PIECE4) | ((face & PIECE5) >> SHIFT2)
        | ((face & PIECE6) >> SHIFT4) | ((face & PIECE7) >> SHIFT6) | ((face & PIECE8) >> SHIFT8);
    proof {
        assert(r == rot_half_word(face));
        lemma_rot_half_bv(face);
    }
    r
}

/// Copies slots `j0, j1, j2` of `src` into slots `i0, i1, i2` of `w`.
pub fn band(w: u32, i0: u32, i1: u32, i2: u32, src: u32, j0: u32, j1: u32, j2: u32) -> (r: u32)
    requires
        i0 < 9 && i1 < 9 && i2 < 9,
        j0 < 9 && j1 < 9 && j2 < 9,
        i0 != i1 && i0 != i2 && i1 != i2,
    ensures
        forall|k: int| 0 <= k < 9 ==> #[trigger] slot(r, k) == if k == i0 {
            slot(src, j0 as int)
        } else if k == i1 {
            slot(src, j1 as int)
        } else if k == i2 {
            slot(src, j2 as int)
        } else {
            slot(w, k)
        },
        w < FACE_BOUND ==> r < FACE_BOUND,
{
    let a = transfer(w, i0, src, j0);
    let b = transfer(a, i1, src, j1);
    transfer(b, i2, src, j2)
}


pub(crate) proof fn lemma_or_slot_bv(w: u32, c: u32, s: u32, t: u32)
    by (bit_vector)
    requires
        s <= 24 && s % 3 == 0,
        t <= 24 && t % 3 == 0,
        c < 8,
        w < (1u32 << s),
    ensures
        field(w | (c << s), t) == if t == s { c } else { field(w, t) },
        (w | (c << s)) < (1u32 << (s + 3) as u32),
{
}

pub(crate) proof fn lemma_shift_consts_bv()
    by (bit_vector)
    ensures
        (1u32 << 0u32) == 1,
        (1u32 << 27u32) == 0x800_0000,
{
}

/// The code in slot `i` of face word `w`.
pub fn slot_of(w: u32, i: u32) -> (r: u32)
    requires
        i < 9,
    ensures
        r == slot(w, i as int),
        r <= 7,
{
    proof {
        assert(((w >> (3 * i)) & 7u32) <= 7) by (bit_vector);
    }
    (w >> (3 * i)) & PIECE
}

} // verus!
