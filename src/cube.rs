//! The cube state, its colors and its 21 moves.
use vstd::prelude::*;
use crate::face::{field, lemma_or_slot_bv, lemma_shift_consts_bv, slot_of, band, face_wf, rotate_face, rotate_face2, rotate_face_, slot, cw_slot, ccw_slot, half_slot, lemma_face_ext, FACE_BOUND};

verus! {

/// Six faces. `Cube` (of `u32`) holds packed face words; `Cube<Vec<Color>>`
/// holds nine colors per face in slot order, ready to be packed.
#[derive(Clone, Copy, Debug, PartialEq, Eq)]
pub struct Cube<T = u32> {
    pub up: T,
    pub down: T,
    pub left: T,
    pub right: T,
    pub front: T,
    pub back: T,
}

/// Sticker colors; `Grey` is the wildcard of a pattern.
#[derive(Debug, Clone, Copy, PartialEq, Eq, Structural)]
pub enum Color {
    Grey,
    White,
    Yellow,
    Green,
    Blue,
    Red,
    Orange,
}

/// The 21 moves; a trailing `_` is the counter-clockwise turn, `2` the half turn.
#[allow(non_camel_case_types)]
#[derive(Debug, Clone, Copy, PartialEq, Eq, Structural)]
pub enum Turn {
    U,
    U_,
    U2,
    D,
    D_,
    D2,
    L,
    L_,
    L2,
    R,
    R_,
    R2,
    F,
    F_,
    F2,
    B,
    B_,
    B2,
    M,
    M_,
    M2,
}

impl Color {
    /// The three-bit code of the color.
    pub open spec fn code_spec(&self) -> u32 {
        match self {
            Color::Grey => 0,
            Color::White => 1,
            Color::Yellow => 2,
            Color::Green => 3,
            Color::Blue => 4,
            Color::Red => 5,
            Color::Orange => 6,
        }
    }

    #[verifier::when_used_as_spec(code_spec)]
    pub fn code(&self) -> (r: u32)
        ensures
            r == self.code_spec(),
    {
        match self {
            Color::Grey => 0,
            Color::White => 1,
            Color::Yellow => 2,
            Color::Green => 3,
            Color::Blue => 4,
            Color::Red => 5,
            Color::Orange => 6,
        }
    }
}

impl Color {
    /// The letter of the color: `_` for the wildcard, then `W Y G B R O`.
    pub open spec fn symbol_spec(&self) -> char {
        match self {
            Color::Grey => '_',
            Color::White => 'W',
            Color::Yellow => 'Y',
            Color::Green => 'G',
            Color::Blue => 'B',
            Color::Red => 'R',
            Color::Orange => 'O',
        }
    }

    #[verifier::when_used_as_spec(symbol_spec)]
    pub fn symbol(&self) -> (r: char)
        ensures
            r == self.symbol_spec(),
    {
        match self {
            Color::Grey => '_',
            Color::White => 'W',
            Color::Yellow => 'Y',
            Color::Green => 'G',
            Color::Blue => 'B',
            Color::Red => 'R',
            Color::Orange => 'O',
        }
    }
}

impl Color {
    /// The color written as `c`, if any.
    pub fn from_symbol(c: char) -> (r: Option<Color>)
        ensures
            match r {
                Some(x) => x.symbol_spec() == c,
                None => forall|x: Color| #[trigger] x.symbol_spec() != c,
            },
    {
        match c {
            '_' => Some(Color::Grey),
            'W' => Some(Color::White),
            'Y' => Some(Color::Yellow),
            'G' => Some(Color::Green),
            'B' => Some(Color::Blue),
            'R' => Some(Color::Red),
            'O' => Some(Color::Orange),
            _ => None,
        }
    }
}

impl Turn {
    /// The standard notation of the move: the axis letter, then `'` for the
    /// counter-clockwise turn or `2` for the half turn.
    pub open spec fn name_spec(&self) -> Seq<char> {
        let c = self.class();
        let letter = if c == 0 {
            'U'
        } else if c == 1 {
            'D'
        } else if c == 2 {
            'L'
        } else if c == 3 {
            'R'
        } else if c == 4 {
            'F'
        } else if c == 5 {
            'B'
        } else {
            'M'
        };
        if self.variant() == 0 {
            seq![letter]
        } else if self.variant() == 1 {
            seq![letter, '\'']
        } else {
            seq![letter, '2']
        }
    }

    pub fn name(&self) -> (r: &'static str)
        ensures
            r@ == self.name_spec(),
    {
        let r = match self {
            Turn::U => "U",
            Turn::U_ => "U'",
            Turn::U2 => "U2",
            Turn::D => "D",
            Turn::D_ => "D'",
            Turn::D2 => "D2",
            Turn::L => "L",
            Turn::L_ => "L'",
            Turn::L2 => "L2",
            Turn::R => "R",
            Turn::R_ => "R'",
            Turn::R2 => "R2",
            Turn::F => "F",
            Turn::F_ => "F'",
            Turn::F2 => "F2",
            Turn::B => "B",
            Turn::B_ => "B'",
            Turn::B2 => "B2",
            Turn::M => "M",
            Turn::M_ => "M'",
            Turn::M2 => "M2",
        };
        proof {
            reveal_strlit("U");
            reveal_strlit("U'");
            reveal_strlit("U2");
            reveal_strlit("D");
            reveal_strlit("D'");
            reveal_strlit("D2");
            reveal_strlit("L");
            reveal_strlit("L'");
            reveal_strlit("L2");
            reveal_strlit("R");
            reveal_strlit("R'");
            reveal_strlit("R2");
            reveal_strlit("F");
            reveal_strlit("F'");
            reveal_strlit("F2");
            reveal_strlit("B");
            reveal_strlit("B'");
            reveal_strlit("B2");
            reveal_strlit("M");
            reveal_strlit("M'");
            reveal_strlit("M2");
            assert(r@ =~= self.name_spec());
        }
        r
    }

    /// The axis of the move: U 0, D 1, L 2, R 3, F 4, B 5, M 6.
    pub open spec fn class(self) -> int {
        match self {
            Turn::U | Turn::U_ | Turn::U2 => 0,
            Turn::D | Turn::D_ | Turn::D2 => 1,
            Turn::L | Turn::L_ | Turn::L2 => 2,
            Turn::R | Turn::R_ | Turn::R2 => 3,
            Turn::F | Turn::F_ | Turn::F2 => 4,
            Turn::B | Turn::B_ | Turn::B2 => 5,
            Turn::M | Turn::M_ | Turn::M2 => 6,
        }
    }

    /// 0 for the clockwise turn, 1 for the counter-clockwise one, 2 for the half turn.
    pub open spec fn variant(self) -> int {
        match self {
            Turn::U | Turn::D | Turn::L | Turn::R | Turn::F | Turn::B | Turn::M => 0,
            Turn::U_ | Turn::D_ | Turn::L_ | Turn::R_ | Turn::F_ | Turn::B_ | Turn::M_ => 1,
            _ => 2,
        }
    }

    /// The move that undoes this one.
    pub open spec fn inverse(self) -> Turn {
        match self {
            Turn::U => Turn::U_,
            Turn::U_ => Turn::U,
            Turn::D => Turn::D_,
            Turn::D_ => Turn::D,
            Turn::L => Turn::L_,
            Turn::L_ => Turn::L,
            Turn::R => Turn::R_,
            Turn::R_ => Turn::R,
            Turn::F => Turn::F_,
            Turn::F_ => Turn::F,
            Turn::B => Turn::B_,
            Turn::B_ => Turn::B,
            Turn::M => Turn::M_,
            Turn::M_ => Turn::M,
            other => other,
        }
    }

    /// The half turn of the same axis.
    pub open spec fn half(self) -> Turn {
        let c = self.class();
        if c == 0 {
            Turn::U2
        } else if c == 1 {
            Turn::D2
        } else if c == 2 {
            Turn::L2
        } else if c == 3 {
            Turn::R2
        } else if c == 4 {
            Turn::F2
        } else if c == 5 {
            Turn::B2
        } else {
            Turn::M2
        }
    }

    /// The tag of the move: its class in the bits from 2 up, its variant in the low two bits.
    pub fn code(&self) -> (r: u8)
        ensures
            r == 4 * self.class() + self.variant(),
    {
        match self {
            Turn::U => 0b0,
            Turn::U_ => 0b1,
            Turn::U2 => 0b10,
            Turn::D => 0b100,
            Turn::D_ => 0b101,
            Turn::D2 => 0b110,
            Turn::L => 0b1000,
            Turn::L_ => 0b1001,
            Turn::L2 => 0b1010,
            Turn::R => 0b1100,
            Turn::R_ => 0b1101,
            Turn::R2 => 0b1110,
            Turn::F => 0b10000,
            Turn::F_ => 0b10001,
            Turn::F2 => 0b10010,
            Turn::B => 0b10100,
            Turn::B_ => 0b10101,
            Turn::B2 => 0b10110,
            Turn::M => 0b11000,
            Turn::M_ => 0b11001,
            Turn::M2 => 0b11010,
        }
    }
}

/// The color with three-bit code `k`.
pub open spec fn color_of(k: u32) -> Color {
    if k == 0 {
        Color::Grey
    } else if k == 1 {
        Color::White
    } else if k == 2 {
        Color::Yellow
    } else if k == 3 {
        Color::Green
    } else if k == 4 {
        Color::Blue
    } else if k == 5 {
        Color::Red
    } else {
        Color::Orange
    }
}

/// Sticker code of every slot of face `f` in the solved cube: yellow up, white down,
/// red left, orange right, green front, blue back.
pub open spec fn solved_code(f: int) -> u32 {
    if f == 0 {
        2
    } else if f == 1 {
        1
    } else if f == 2 {
        5
    } else if f == 3 {
        6
    } else if f == 4 {
        3
    } else {
        4
    }
}

/// The sticker view of the solved cube.
pub open spec fn solved_view() -> Seq<Seq<u32>> {
    Seq::new(6, |f: int| Seq::new(9, |i: int| solved_code(f)))
}

proof fn lemma_solved_bv(s: u32)
    by (bit_vector)
    requires
        s <= 24 && s % 3 == 0,
    ensures
        field(0b010010010010010010010010010u32, s) == 2,
        field(0b001001001001001001001001001u32, s) == 1,
        field(0b101101101101101101101101101u32, s) == 5,
        field(0b110110110110110110110110110u32, s) == 6,
        field(0b011011011011011011011011011u32, s) == 3,
        field(0b100100100100100100100100100u32, s) == 4,
{
}

/// The color in slot `n` of face word `face`.
pub fn nth_chunk(n: usize, face: u32) -> (r: Color)
    requires
        n < 9,
        slot(face, n as int) <= 6,
    ensures
        r == color_of(slot(face, n as int)),
        r.code() == slot(face, n as int),
{
    let k = slot_of(face, n as u32);
    match k {
        0 => Color::Grey,
        1 => Color::White,
        2 => Color::Yellow,
        3 => Color::Green,
        4 => Color::Blue,
        5 => Color::Red,
        _ => Color::Orange,
    }
}

impl Cube<Vec<Color>> {
    /// The colors of face `f`, numbered as for packed cubes.
    pub open spec fn face_colors(self, f: int) -> Seq<Color> {
        if f == 0 {
            self.up@
        } else if f == 1 {
            self.down@
        } else if f == 2 {
            self.left@
        } else if f == 3 {
            self.right@
        } else if f == 4 {
            self.front@
        } else {
            self.back@
        }
    }

    /// Nine colors on every face.
    pub open spec fn complete(self) -> bool {
        forall|f: int| 0 <= f < 6 ==> #[trigger] self.face_colors(f).len() == 9
    }

    /// The codes of the colors, by face and slot.
    pub open spec fn codes(self) -> Seq<Seq<u32>> {
        Seq::new(6, |f: int| Seq::new(9, |i: int| self.face_colors(f)[i].code()))
    }

    /// Packs nine colors, in slot order, into a face word.
    fn face_from_colors(colors: &[Color]) -> (r: u32)
        requires
            colors@.len() == 9,
        ensures
            face_wf(r),
            forall|i: int| 0 <= i < 9 ==> #[trigger] slot(r, i) == colors@[i].code(),
    {
        let mut face: u32 = 0;
        let mut i: usize = 0;
        proof {
            lemma_shift_consts_bv();
        }
        while i < colors.len()
            invariant
                colors@.len() == 9,
                i <= 9,
                face < (1u32 << (3 * i) as u32),
                forall|k: int| 0 <= k < i ==> #[trigger] slot(face, k) == colors@[k].code(),
            decreases 9 - i,
        {
            let c = colors[i].code();
            let s = (3 * i) as u32;
            proof {
                assert forall|k: int| 0 <= k < i + 1 implies #[trigger] slot(face | (c << s), k) == colors@[k].code() by {
                    lemma_or_slot_bv(face, c, s, (3 * k) as u32);
                    if k < i {
                        assert(slot(face, k) == colors@[k].code());
                    }
                }
                lemma_or_slot_bv(face, c, s, 0);
            }
            face = face | (c << s);
            i = i + 1;
        }
        proof {
            lemma_shift_consts_bv();
            assert forall|i: int| 0 <= i < 9 implies #[trigger] slot(face, i) <= 6 by {
                assert(slot(face, i) == colors@[i].code());
            }
        }
        face
    }

    /// Packs a cube whose faces list their nine colors in slot order.
    pub fn pack(&self) -> (r: Cube)
        requires
            self.complete(),
        ensures
            r.wf(),
            r@ == self.codes(),
    {
        proof {
            assert(self.face_colors(0).len() == 9 && self.face_colors(1).len() == 9 && self.face_colors(2).len() == 9);
            assert(self.face_colors(3).len() == 9 && self.face_colors(4).len() == 9 && self.face_colors(5).len() == 9);
        }
        let r = Cube {
            up: Self::face_from_colors(self.up.as_slice()),
            down: Self::face_from_colors(self.down.as_slice()),
            left: Self::face_from_colors(self.left.as_slice()),
            right: Self::face_from_colors(self.right.as_slice()),
            front: Self::face_from_colors(self.front.as_slice()),
            back: Self::face_from_colors(self.back.as_slice()),
        };
        proof {
            lemma_view_eq(r, self.codes());
        }
        r
    }
}

/// Faces are numbered up 0, down 1, left 2, right 3, front 4, back 5.
impl Cube {
    pub open spec fn face(self, f: int) -> u32 {
        if f == 0 {
            self.up
        } else if f == 1 {
            self.down
        } else if f == 2 {
            self.left
        } else if f == 3 {
            self.right
        } else if f == 4 {
            self.front
        } else {
            self.back
        }
    }

    /// Every face is a well-formed face word.
    pub open spec fn wf(self) -> bool {
        &&& face_wf(self.up)
        &&& face_wf(self.down)
        &&& face_wf(self.left)
        &&& face_wf(self.right)
        &&& face_wf(self.front)
        &&& face_wf(self.back)
    }
}

impl View for Cube {
    /// Sticker codes by face and slot.
    type V = Seq<Seq<u32>>;

    open spec fn view(&self) -> Seq<Seq<u32>> {
        Seq::new(6, |f: int| Seq::new(9, |i: int| slot(self.face(f), i)))
    }
}

/// A sticker view of the shape of a cube: six faces of nine slots.
pub open spec fn shaped(v: Seq<Seq<u32>>) -> bool {
    v.len() == 6 && forall|f: int| 0 <= f < 6 ==> #[trigger] v[f].len() == 9
}

/// Picks `x`, `y` or `z` as `i` is `a`, `b` or anything else.
pub open spec fn pick(i: int, a: int, b: int, x: int, y: int, z: int) -> int {
    if i == a { x } else if i == b { y } else { z }
}

/// The position (face, slot) whose sticker a clockwise quarter turn of axis `c`
/// brings to (`f`, `i`).
pub open spec fn quarter_src(c: int, f: int, i: int) -> (int, int) {
    if c == 0 {
        if f == 0 {
            (0, cw_slot(i))
        } else if f == 4 && i <= 2 {
            (3, pick(i, 0, 1, 6, 3, 0))
        } else if f == 2 && (i == 2 || i == 5 || i == 8) {
            (4, pick(i, 2, 5, 0, 1, 2))
        } else if f == 5 && i >= 6 {
            (2, pick(i, 6, 7, 8, 5, 2))
        } else if f == 3 && (i == 0 || i == 3 || i == 6) {
            (5, pick(i, 0, 3, 6, 7, 8))
        } else {
            (f, i)
        }
    } else if c == 1 {
        if f == 1 {
            (1, cw_slot(i))
        } else if f == 5 && i <= 2 {
            (3, pick(i, 0, 1, 2, 5, 8))
        } else if f == 3 && (i == 2 || i == 5 || i == 8) {
            (4, pick(i, 2, 5, 8, 7, 6))
        } else if f == 4 && i >= 6 {
            (2, pick(i, 6, 7, 0, 3, 6))
        } else if f == 2 && (i == 0 || i == 3 || i == 6) {
            (5, pick(i, 0, 3, 2, 1, 0))
        } else {
            (f, i)
        }
    } else if c == 2 {
        let col = i == 0 || i == 3 || i == 6;
        if f == 2 {
            (2, cw_slot(i))
        } else if col && f == 0 {
            (5, i)
        } else if col && f == 1 {
            (4, i)
        } else if col && f == 4 {
            (0, i)
        } else if col && f == 5 {
            (1, i)
        } else {
            (f, i)
        }
    } else if c == 6 {
        let col = i == 1 || i == 4 || i == 7;
        if col && f == 0 {
            (5, i)
        } else if col && f == 1 {
            (4, i)
        } else if col && f == 4 {
            (0, i)
        } else if col && f == 5 {
            (1, i)
        } else {
            (f, i)
        }
    } else if c == 3 {
        let col = i == 2 || i == 5 || i == 8;
        if f == 3 {
            (3, cw_slot(i))
        } else if col && f == 0 {
            (4, i)
        } else if col && f == 1 {
            (5, i)
        } else if col && f == 4 {
            (1, i)
        } else if col && f == 5 {
            (0, i)
        } else {
            (f, i)
        }
    } else if c == 4 {
        if f == 4 {
            (4, cw_slot(i))
        } else if f == 0 && i >= 6 {
            (2, i)
        } else if f == 1 && i <= 2 {
            (3, pick(i, 0, 1, 8, 7, 6))
        } else if f == 2 && i >= 6 {
            (1, pick(i, 6, 7, 2, 1, 0))
        } else if f == 3 && i >= 6 {
            (0, i)
        } else {
            (f, i)
        }
    } else {
        if f == 5 {
            (5, cw_slot(i))
        } else if f == 0 && i <= 2 {
            (3, i)
        } else if f == 1 && i >= 6 {
            (2, pick(i, 6, 7, 2, 1, 0))
        } else if f == 2 && i <= 2 {
            (0, i)
        } else if f == 3 && i <= 2 {
            (1, pick(i, 0, 1, 8, 7, 6))
        } else {
            (f, i)
        }
    }
}

pub open spec fn quarter_pos(c: int, p: (int, int)) -> (int, int) {
    quarter_src(c, p.0, p.1)
}

/// The position whose sticker move `t` brings to (`f`, `i`): the clockwise
/// quarter turn once, three times for the counter-clockwise turn, twice for the half turn.
pub open spec fn turn_src(t: Turn, f: int, i: int) -> (int, int) {
    let c = t.class();
    let once = quarter_src(c, f, i);
    let twice = quarter_pos(c, once);
    if t.variant() == 0 {
        once
    } else if t.variant() == 2 {
        twice
    } else {
        quarter_pos(c, twice)
    }
}

/// The stickers after move `t`.
pub open spec fn turn_view(v: Seq<Seq<u32>>, t: Turn) -> Seq<Seq<u32>> {
    Seq::new(6, |f: int| Seq::new(9, |i: int| v[turn_src(t, f, i).0][turn_src(t, f, i).1]))
}


/// Every source position lies on the cube.
pub proof fn lemma_turn_src_range(t: Turn, f: int, i: int)
    requires
        0 <= f < 6,
        0 <= i < 9,
    ensures
        0 <= turn_src(t, f, i).0 < 6,
        0 <= turn_src(t, f, i).1 < 9,
{
}

proof fn lemma_view_eq(r: Cube, v: Seq<Seq<u32>>)
    requires
        shaped(v),
        forall|i: int| 0 <= i < 9 ==> #[trigger] slot(r.up, i) == v[0][i],
        forall|i: int| 0 <= i < 9 ==> #[trigger] slot(r.down, i) == v[1][i],
        forall|i: int| 0 <= i < 9 ==> #[trigger] slot(r.left, i) == v[2][i],
        forall|i: int| 0 <= i < 9 ==> #[trigger] slot(r.right, i) == v[3][i],
        forall|i: int| 0 <= i < 9 ==> #[trigger] slot(r.front, i) == v[4][i],
        forall|i: int| 0 <= i < 9 ==> #[trigger] slot(r.back, i) == v[5][i],
    ensures
        r@ == v,
{
    assert forall|f: int| 0 <= f < 6 implies #[trigger] r@[f] =~= v[f] by {
        assert(r@[f].len() == 9);
    }
    assert(r@ =~= v);
}

/// A move keeps the faces well formed.
proof fn lemma_turn_wf(s: Cube, r: Cube, t: Turn)
    requires
        r@ == turn_view(s@, t),
        s.wf(),
        r.up < FACE_BOUND && r.down < FACE_BOUND && r.left < FACE_BOUND,
        r.right < FACE_BOUND && r.front < FACE_BOUND && r.back < FACE_BOUND,
    ensures
        r.wf(),
{
    assert forall|f: int, i: int| 0 <= f < 6 && 0 <= i < 9 implies #[trigger] slot(r.face(f), i) <= 6 by {
        lemma_turn_src_range(t, f, i);
        assert(r@[f][i] == turn_view(s@, t)[f][i]);
        let p = turn_src(t, f, i);
        assert(s@[p.0][p.1] == slot(s.face(p.0), p.1));
        assert(face_wf(s.face(p.0)));
    }
    assert forall|i: int| 0 <= i < 9 implies #[trigger] slot(r.up, i) <= 6 by { assert(slot(r.face(0), i) <= 6); }
    assert forall|i: int| 0 <= i < 9 implies #[trigger] slot(r.down, i) <= 6 by { assert(slot(r.face(1), i) <= 6); }
    assert forall|i: int| 0 <= i < 9 implies #[trigger] slot(r.left, i) <= 6 by { assert(slot(r.face(2), i) <= 6); }
    assert forall|i: int| 0 <= i < 9 implies #[trigger] slot(r.right, i) <= 6 by { assert(slot(r.face(3), i) <= 6); }
    assert forall|i: int| 0 <= i < 9 implies #[trigger] slot(r.front, i) <= 6 by { assert(slot(r.face(4), i) <= 6); }
    assert forall|i: int| 0 <= i < 9 implies #[trigger] slot(r.back, i) <= 6 by { assert(slot(r.face(5), i) <= 6); }
}

impl Cube {
    /// The solved cube: yellow up, white down, red left, orange right, green front, blue back.
    pub fn solved_state() -> (r: Self)
        ensures
            r.wf(),
            r@ == solved_view(),
    {
        let r = Cube {
            up: 0b010010010010010010010010010,
            down: 0b001001001001001001001001001,
            left: 0b101101101101101101101101101,
            right: 0b110110110110110110110110110,
            front: 0b011011011011011011011011011,
            back: 0b100100100100100100100100100,
        };
        proof {
            assert forall|i: int| 0 <= i < 9 implies #[trigger] slot(r.up, i) == 2 by {
                lemma_solved_bv((3 * i) as u32);
            }
            assert forall|i: int| 0 <= i < 9 implies #[trigger] slot(r.down, i) == 1 by {
                lemma_solved_bv((3 * i) as u32);
            }
            assert forall|i: int| 0 <= i < 9 implies #[trigger] slot(r.left, i) == 5 by {
                lemma_solved_bv((3 * i) as u32);
            }
            assert forall|i: int| 0 <= i < 9 implies #[trigger] slot(r.right, i) == 6 by {
                lemma_solved_bv((3 * i) as u32);
            }
            assert forall|i: int| 0 <= i < 9 implies #[trigger] slot(r.front, i) == 3 by {
                lemma_solved_bv((3 * i) as u32);
            }
            assert forall|i: int| 0 <= i < 9 implies #[trigger] slot(r.back, i) == 4 by {
                lemma_solved_bv((3 * i) as u32);
            }
            lemma_solved_bv(0);
            assert(r.up < FACE_BOUND && r.down < FACE_BOUND && r.left < FACE_BOUND);
            assert(r.right < FACE_BOUND && r.front < FACE_BOUND && r.back < FACE_BOUND);
            lemma_view_eq(r, solved_view());
        }
        r
    }

    /// The six face words, in face order.
    pub(crate) fn faces(&self) -> (r: [u32; 6])
        ensures
            forall|f: int| 0 <= f < 6 ==> #[trigger] r@[f] == self.face(f),
    {
        [self.up, self.down, self.left, self.right, self.front, self.back]
    }

    fn right(&self) -> (r: Self)
        ensures
            r@ == turn_view(self@, Turn::R),
            self.wf() ==> r.wf(),
    {
        let r = Cube {
            up: band(self.up, 2, 5, 8, self.front, 2, 5, 8),
            down: band(self.down, 2, 5, 8, self.back, 2, 5, 8),
            left: self.left,
            right: rotate_face(self.right),
            front: band(self.front, 2, 5, 8, self.down, 2, 5, 8),
            back: band(self.back, 2, 5, 8, self.up, 2, 5, 8),
        };
        proof {
            lemma_view_eq(r, turn_view(self@, Turn::R));
            if self.wf() {
                lemma_turn_wf(*self, r, Turn::R);
            }
        }
        r
    }

    fn right_(&self) -> (r: Self)
        ensures
            r@ == turn_view(self@, Turn::R_),
            self.wf() ==> r.wf(),
    {
        let r = Cube {
            up: band(self.up, 2, 5, 8, self.back, 2, 5, 8),
            down: band(self.down, 2, 5, 8, self.front, 2, 5, 8),
            left: self.left,
            right: rotate_face_(self.right),
            front: band(self.front, 2, 5, 8, self.up, 2, 5, 8),
            back: band(self.back, 2, 5, 8, self.down, 2, 5, 8),
        };
        proof {
            lemma_view_eq(r, turn_view(self@, Turn::R_));
            if self.wf() {
                lemma_turn_wf(*self, r, Turn::R_);
            }
        }
        r
    }

    fn right2(&self) -> (r: Self)
        ensures
            r@ == turn_view(self@, Turn::R2),
            self.wf() ==> r.wf(),
    {
        let r = Cube {
            up: band(self.up, 2, 5, 8, self.down, 2, 5, 8),
            down: band(self.down, 2, 5, 8, self.up, 2, 5, 8),
            left: self.left,
            right: rotate_face2(self.right),
            front: band(self.front, 2, 5, 8, self.back, 2, 5, 8),
            back: band(self.back, 2, 5, 8, self.front, 2, 5, 8),
        };
        proof {
            lemma_view_eq(r, turn_view(self@, Turn::R2));
            if self.wf() {
                lemma_turn_wf(*self, r, Turn::R2);
            }
        }
        r
    }

    fn left(&self) -> (r: Self)
        ensures
            r@ == turn_view(self@, Turn::L),
            self.wf() ==> r.wf(),
    {
        let r = Cube {
            up: band(self.up, 0, 3, 6, self.back, 0, 3, 6),
            down: band(self.down, 0, 3, 6, self.front, 0, 3, 6),
            left: rotate_face(self.left),
            right: self.right,
            front: band(self.front, 0, 3, 6, self.up, 0, 3, 6),
            back: band(self.back, 0, 3, 6, self.down, 0, 3, 6),
        };
        proof {
            lemma_view_eq(r, turn_view(self@, Turn::L));
            if self.wf() {
                lemma_turn_wf(*self, r, Turn::L);
            }
        }
        r
    }

    fn left_(&self) -> (r: Self)
        ensures
            r@ == turn_view(self@, Turn::L_),
            self.wf() ==> r.wf(),
    {
        let r = Cube {
            up: band(self.up, 0, 3, 6, self.front, 0, 3, 6),
            down: band(self.down, 0, 3, 6, self.back, 0, 3, 6),
            left: rotate_face_(self.left),
            right: self.right,
            front: band(self.front, 0, 3, 6, self.down, 0, 3, 6),
            back: band(self.back, 0, 3, 6, self.up, 0, 3, 6),
        };
        proof {
            lemma_view_eq(r, turn_view(self@, Turn::L_));
            if self.wf() {
                lemma_turn_wf(*self, r, Turn::L_);
            }
        }
        r
    }

    fn left2(&self) -> (r: Self)
        ensures
            r@ == turn_view(self@, Turn::L2),
            self.wf() ==> r.wf(),
    {
        let r = Cube {
            up: band(self.up, 0, 3, 6, self.down, 0, 3, 6),
            down: band(self.down, 0, 3, 6, self.up, 0, 3, 6),
            left: rotate_face2(self.left),
            right: self.right,
            front: band(self.front, 0, 3, 6, self.back, 0, 3, 6),
            back: band(self.back, 0, 3, 6, self.front, 0, 3, 6),
        };
        proof {
            lemma_view_eq(r, turn_view(self@, Turn::L2));
            if self.wf() {
                lemma_turn_wf(*self, r, Turn::L2);
            }
        }
        r
    }

    fn middle(&self) -> (r: Self)
        ensures
            r@ == turn_view(self@, Turn::M),
            self.wf() ==> r.wf(),
    {
        let r = Cube {
            up: band(self.up, 1, 4, 7, self.back, 1, 4, 7),
            down: band(self.down, 1, 4, 7, self.front, 1, 4, 7),
            left: self.left,
            right: self.right,
            front: band(self.front, 1, 4, 7, self.up, 1, 4, 7),
            back: band(self.back, 1, 4, 7, self.down, 1, 4, 7),
        };
        proof {
            lemma_view_eq(r, turn_view(self@, Turn::M));
            if self.wf() {
                lemma_turn_wf(*self, r, Turn::M);
            }
        }
        r
    }

    fn middle_(&self) -> (r: Self)
        ensures
            r@ == turn_view(self@, Turn::M_),
            self.wf() ==> r.wf(),
    {
        let r = Cube {
            up: band(self.up, 1, 4, 7, self.front, 1, 4, 7),
            down: band(self.down, 1, 4, 7, self.back, 1, 4, 7),
            left: self.left,
            right: self.right,
            front: band(self.front, 1, 4, 7, self.down, 1, 4, 7),
            back: band(self.back, 1, 4, 7, self.up, 1, 4, 7),
        };
        proof {
            lemma_view_eq(r, turn_view(self@, Turn::M_));
            if self.wf() {
                lemma_turn_wf(*self, r, Turn::M_);
            }
        }
        r
    }

    fn middle2(&self) -> (r: Self)
        ensures
            r@ == turn_view(self@, Turn::M2),
            self.wf() ==> r.wf(),
    {
        let r = Cube {
            up: band(self.up, 1, 4, 7, self.down, 1, 4, 7),
            down: band(self.down, 1, 4, 7, self.up, 1, 4, 7),
            left: self.left,
            right: self.right,
            front: band(self.front, 1, 4, 7, self.back, 1, 4, 7),
            back: band(self.back, 1, 4, 7, self.front, 1, 4, 7),
        };
        proof {
            lemma_view_eq(r, turn_view(self@, Turn::M2));
            if self.wf() {
                lemma_turn_wf(*self, r, Turn::M2);
            }
        }
        r
    }

    fn front(&self) -> (r: Self)
        ensures
            r@ == turn_view(self@, Turn::F),
            self.wf() ==> r.wf(),
    {
        let r = Cube {
            up: band(self.up, 6, 7, 8, self.left, 6, 7, 8),
            down: band(self.down, 2, 1, 0, self.right, 6, 7, 8),
            left: band(self.left, 6, 7, 8, self.down, 2, 1, 0),
            right: band(self.right, 6, 7, 8, self.up, 6, 7, 8),
            front: rotate_face(self.front),
            back: self.back,
        };
        proof {
            lemma_view_eq(r, turn_view(self@, Turn::F));
            if self.wf() {
                lemma_turn_wf(*self, r, Turn::F);
            }
        }
        r
    }

    fn front_(&self) -> (r: Self)
        ensures
            r@ == turn_view(self@, Turn::F_),
            self.wf() ==> r.wf(),
    {
        let r = Cube {
            up: band(self.up, 6, 7, 8, self.right, 6, 7, 8),
            down: band(self.down, 2, 1, 0, self.left, 6, 7, 8),
            left: band(self.left, 6, 7, 8, self.up, 6, 7, 8),
            right: band(self.right, 6, 7, 8, self.down, 2, 1, 0),
            front: rotate_face_(self.front),
            back: self.back,
        };
        proof {
            lemma_view_eq(r, turn_view(self@, Turn::F_));
            if self.wf() {
                lemma_turn_wf(*self, r, Turn::F_);
            }
        }
        r
    }

    fn front2(&self) -> (r: Self)
        ensures
            r@ == turn_view(self@, Turn::F2),
            self.wf() ==> r.wf(),
    {
        let r = Cube {
            up: band(self.up, 6, 7, 8, self.down, 2, 1, 0),
            down: band(self.down, 2, 1, 0, self.up, 6, 7, 8),
            left: band(self.left, 6, 7, 8, self.right, 6, 7, 8),
            right: band(self.right, 6, 7, 8, self.left, 6, 7, 8),
            front: rotate_face2(self.front),
            back: self.back,
        };
        proof {
            lemma_view_eq(r, turn_view(self@, Turn::F2));
            if self.wf() {
                lemma_turn_wf(*self, r, Turn::F2);
            }
        }
        r
    }

    fn back(&self) -> (r: Self)
        ensures
            r@ == turn_view(self@, Turn::B),
            self.wf() ==> r.wf(),
    {
        let r = Cube {
            up: band(self.up, 0, 1, 2, self.right, 0, 1, 2),
            down: band(self.down, 6, 7, 8, self.left, 2, 1, 0),
            left: band(self.left, 0, 1, 2, self.up, 0, 1, 2),
            right: band(self.right, 2, 1, 0, self.down, 6, 7, 8),
            front: self.front,
            back: rotate_face(self.back),
        };
        proof {
            lemma_view_eq(r, turn_view(self@, Turn::B));
            if self.wf() {
                lemma_turn_wf(*self, r, Turn::B);
            }
        }
        r
    }

    fn back_(&self) -> (r: Self)
        ensures
            r@ == turn_view(self@, Turn::B_),
            self.wf() ==> r.wf(),
    {
        let r = Cube {
            up: band(self.up, 0, 1, 2, self.left, 0, 1, 2),
            down: band(self.down, 6, 7, 8, self.right, 2, 1, 0),
            left: band(self.left, 2, 1, 0, self.down, 6, 7, 8),
            right: band(self.right, 0, 1, 2, self.up, 0, 1, 2),
            front: self.front,
            back: rotate_face_(self.back),
        };
        proof {
            lemma_view_eq(r, turn_view(self@, Turn::B_));
            if self.wf() {
                lemma_turn_wf(*self, r, Turn::B_);
            }
        }
        r
    }

    fn back2(&self) -> (r: Self)
        ensures
            r@ == turn_view(self@, Turn::B2),
            self.wf() ==> r.wf(),
    {
        let r = Cube {
            up: band(self.up, 2, 1, 0, self.down, 6, 7, 8),
            down: band(self.down, 6, 7, 8, self.up, 2, 1, 0),
            left: band(self.left, 0, 1, 2, self.right, 0, 1, 2),
            right: band(self.right, 0, 1, 2, self.left, 0, 1, 2),
            front: self.front,
            back: rotate_face2(self.back),
        };
        proof {
            lemma_view_eq(r, turn_view(self@, Turn::B2));
            if self.wf() {
                lemma_turn_wf(*self, r, Turn::B2);
            }
        }
        r
    }

    fn up(&self) -> (r: Self)
        ensures
            r@ == turn_view(self@, Turn::U),
            self.wf() ==> r.wf(),
    {
        let r = Cube {
            up: rotate_face(self.up),
            down: self.down,
            left: band(self.left, 2, 5, 8, self.front, 0, 1, 2),
            right: band(self.right, 0, 3, 6, self.back, 6, 7, 8),
            front: band(self.front, 0, 1, 2, self.right, 6, 3, 0),
            back: band(self.back, 6, 7, 8, self.left, 8, 5, 2),
        };
        proof {
            lemma_view_eq(r, turn_view(self@, Turn::U));
            if self.wf() {
                lemma_turn_wf(*self, r, Turn::U);
            }
        }
        r
    }

    fn up_(&self) -> (r: Self)
        ensures
            r@ == turn_view(self@, Turn::U_),
            self.wf() ==> r.wf(),
    {
        let r = Cube {
            up: rotate_face_(self.up),
            down: self.down,
            left: band(self.left, 8, 5, 2, self.back, 6, 7, 8),
            right: band(self.right, 0, 3, 6, self.front, 2, 1, 0),
            front: band(self.front, 2, 1, 0, self.left, 8, 5, 2),
            back: band(self.back, 6, 7, 8, self.right, 0, 3, 6),
        };
        proof {
            lemma_view_eq(r, turn_view(self@, Turn::U_));
            if self.wf() {
                lemma_turn_wf(*self, r, Turn::U_);
            }
        }
        r
    }

    fn up2(&self) -> (r: Self)
        ensures
            r@ == turn_view(self@, Turn::U2),
            self.wf() ==> r.wf(),
    {
        let r = Cube {
            up: rotate_face2(self.up),
            down: self.down,
            left: band(self.left, 8, 5, 2, self.right, 0, 3, 6),
            right: band(self.right, 0, 3, 6, self.left, 8, 5, 2),
            front: band(self.front, 2, 1, 0, self.back, 6, 7, 8),
            back: band(self.back, 6, 7, 8, self.front, 2, 1, 0),
        };
        proof {
            lemma_view_eq(r, turn_view(self@, Turn::U2));
            if self.wf() {
                lemma_turn_wf(*self, r, Turn::U2);
            }
        }
        r
    }

    fn down(&self) -> (r: Self)
        ensures
            r@ == turn_view(self@, Turn::D),
            self.wf() ==> r.wf(),
    {
        let r = Cube {
            up: self.up,
            down: rotate_face(self.down),
            left: band(self.left, 0, 3, 6, self.back, 2, 1, 0),
            right: band(self.right, 8, 5, 2, self.front, 6, 7, 8),
            front: band(self.front, 6, 7, 8, self.left, 0, 3, 6),
            back: band(self.back, 2, 1, 0, self.right, 8, 5, 2),
        };
        proof {
            lemma_view_eq(r, turn_view(self@, Turn::D));
            if self.wf() {
                lemma_turn_wf(*self, r, Turn::D);
            }
        }
        r
    }

    fn down_(&self) -> (r: Self)
        ensures
            r@ == turn_view(self@, Turn::D_),
            self.wf() ==> r.wf(),
    {
        let r = Cube {
            up: self.up,
            down: rotate_face_(self.down),
            left: band(self.left, 0, 3, 6, self.front, 6, 7, 8),
            right: band(self.right, 8, 5, 2, self.back, 2, 1, 0),
            front: band(self.front, 6, 7, 8, self.right, 8, 5, 2),
            back: band(self.back, 2, 1, 0, self.left, 0, 3, 6),
        };
        proof {
            lemma_view_eq(r, turn_view(self@, Turn::D_));
            if self.wf() {
                lemma_turn_wf(*self, r, Turn::D_);
            }
        }
        r
    }

    fn down2(&self) -> (r: Self)
        ensures
            r@ == turn_view(self@, Turn::D2),
            self.wf() ==> r.wf(),
    {
        let r = Cube {
            up: self.up,
            down: rotate_face2(self.down),
            left: band(self.left, 0, 3, 6, self.right, 8, 5, 2),
            right: band(self.right, 8, 5, 2, self.left, 0, 3, 6),
            front: band(self.front, 6, 7, 8, self.back, 2, 1, 0),
            back: band(self.back, 2, 1, 0, self.front, 6, 7, 8),
        };
        proof {
            lemma_view_eq(r, turn_view(self@, Turn::D2));
            if self.wf() {
                lemma_turn_wf(*self, r, Turn::D2);
            }
        }
        r
    }

    /// Applies one move.
    pub fn turn(&self, t: Turn) -> (r: Self)
        ensures
            r@ == turn_view(self@, t),
            self.wf() ==> r.wf(),
    {
        match t {
            Turn::U => self.up(),
            Turn::U_ => self.up_(),
            Turn::U2 => self.up2(),
            Turn::D => self.down(),
            Turn::D_ => self.down_(),
            Turn::D2 => self.down2(),
            Turn::L => self.left(),
            Turn::L_ => self.left_(),
            Turn::L2 => self.left2(),
            Turn::R => self.right(),
            Turn::R_ => self.right_(),
            Turn::R2 => self.right2(),
            Turn::F => self.front(),
            Turn::F_ => self.front_(),
            Turn::F2 => self.front2(),
            Turn::B => self.back(),
            Turn::B_ => self.back_(),
            Turn::B2 => self.back2(),
            Turn::M => self.middle(),
            Turn::M_ => self.middle_(),
            Turn::M2 => self.middle2(),
        }
    }
}

} // verus!
