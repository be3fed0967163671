//! Algebraic laws of the moves, stated over the sticker view.
use vstd::prelude::*;
use crate::pattern::{cube_matches, face_matches};
use crate::face::{lemma_face_ext, slot, FACE_BOUND};
use crate::cube::{quarter_pos, quarter_src, shaped, turn_src, turn_view, lemma_turn_src_range, Cube, Turn};

verus! {

/// Four clockwise quarter turns of one axis bring every sticker home.
proof fn lemma_quarter_four(c: int, f: int, i: int)
    requires
        0 <= c < 7,
        0 <= f < 6,
        0 <= i < 9,
    ensures
        quarter_pos(c, quarter_pos(c, quarter_pos(c, quarter_src(c, f, i)))) == (f, i),
{
}

/// Sticker view after `a` then `b`: each sticker comes from the composed source.
proof fn lemma_compose(v: Seq<Seq<u32>>, a: Turn, b: Turn, f: int, i: int)
    requires
        shaped(v),
        0 <= f < 6,
        0 <= i < 9,
    ensures
        turn_view(turn_view(v, a), b)[f][i] == v[turn_src(a, turn_src(b, f, i).0, turn_src(b, f, i).1).0][turn_src(
            a,
            turn_src(b, f, i).0,
            turn_src(b, f, i).1,
        ).1],
{
    lemma_turn_src_range(b, f, i);
}


/// A move followed by its inverse leaves every sticker where it was, and so does
/// a half turn done twice; a quarter turn done twice is the half turn of its axis.
pub proof fn lemma_move_involutions(v: Seq<Seq<u32>>, m: Turn)
    requires
        shaped(v),
    ensures
        turn_view(turn_view(v, m), m.inverse()) == v,
        turn_view(turn_view(v, m.half()), m.half()) == v,
        m.variant() != 2 ==> turn_view(turn_view(v, m), m) == turn_view(v, m.half()),
{
    let c = m.class();
    assert forall|f: int, i: int| 0 <= f < 6 && 0 <= i < 9 implies {
        &&& #[trigger] turn_view(turn_view(v, m), m.inverse())[f][i] == v[f][i]
        &&& turn_view(turn_view(v, m.half()), m.half())[f][i] == v[f][i]
        &&& m.variant() != 2 ==> turn_view(turn_view(v, m), m)[f][i] == turn_view(v, m.half())[f][i]
    } by {
        lemma_compose(v, m, m.inverse(), f, i);
        lemma_compose(v, m.half(), m.half(), f, i);
        lemma_compose(v, m, m, f, i);
        lemma_quarter_four(c, f, i);
        lemma_turn_src_range(m, f, i);
    }
    assert(turn_view(turn_view(v, m), m.inverse()) =~~= v);
    assert(turn_view(turn_view(v, m.half()), m.half()) =~~= v);
    if m.variant() != 2 {
        assert(turn_view(turn_view(v, m), m) =~~= turn_view(v, m.half()));
    }
}

/// Four quarter turns of one move leave every sticker where it was.
pub proof fn lemma_four_cycle(v: Seq<Seq<u32>>, m: Turn)
    requires
        shaped(v),
        m.variant() != 2,
    ensures
        turn_view(turn_view(turn_view(turn_view(v, m), m), m), m) == v,
{
    // two quarter turns are the half turn, and two half turns undo each other
    lemma_move_involutions(v, m);
    let w = turn_view(turn_view(v, m), m);
    assert(shaped(w));
    lemma_move_involutions(w, m);
}

/// No face turn changes the center sticker of any face. (The middle slice
/// carries the centers of the up, front, down and back faces along.)
pub proof fn lemma_centers_pinned(v: Seq<Seq<u32>>, m: Turn, f: int)
    requires
        shaped(v),
        m.class() != 6,
        0 <= f < 6,
    ensures
        turn_view(v, m)[f][4] == v[f][4],
{
    assert(turn_src(m, f, 4) == (f, 4int));
}


/// The pattern whose every sticker is the wildcard.
pub open spec fn wildcard_view() -> Seq<Seq<u32>> {
    Seq::new(6, |f: int| Seq::new(9, |i: int| 0u32))
}

/// Every state matches the all-wildcard pattern.
pub proof fn lemma_wildcard_matches(v: Seq<Seq<u32>>)
    ensures
        cube_matches(v, wildcard_view()),
{
    assert forall|f: int| 0 <= f < 6 implies #[trigger] face_matches(v[f], wildcard_view()[f]) by {
        assert forall|i: int| 0 <= i < 9 implies #[trigger] wildcard_view()[f][i] == 0 || wildcard_view()[f][i] == v[f][i] by {}
    }
}

/// Every state matches itself as a pattern.
pub proof fn lemma_self_matches(v: Seq<Seq<u32>>)
    ensures
        cube_matches(v, v),
{
    assert forall|f: int| 0 <= f < 6 implies #[trigger] face_matches(v[f], v[f]) by {
        assert forall|i: int| 0 <= i < 9 implies #[trigger] v[f][i] == 0 || v[f][i] == v[f][i] by {}
    }
}

/// Well-formed cubes with the same stickers are the same cube, so the laws above,
/// stated over stickers, hold of the packed cubes that `Cube::turn` returns.
pub proof fn lemma_view_injective(a: Cube, b: Cube)
    requires
        a.wf(),
        b.wf(),
        a@ == b@,
    ensures
        a == b,
{
    assert forall|f: int| 0 <= f < 6 implies #[trigger] a.face(f) == b.face(f) by {
        assert forall|i: int| 0 <= i < 9 implies #[trigger] slot(a.face(f), i) == slot(b.face(f), i) by {
            assert(a@[f].len() == 9 && b@[f].len() == 9);
            assert(a@[f][i] == slot(a.face(f), i));
            assert(b@[f][i] == slot(b.face(f), i));
            assert(a@[f][i] == b@[f][i]);
        }
        assert(a.face(f) < FACE_BOUND && b.face(f) < FACE_BOUND);
        lemma_face_ext(a.face(f), b.face(f));
    }
    assert(a.face(0) == b.face(0) && a.face(1) == b.face(1) && a.face(2) == b.face(2));
    assert(a.face(3) == b.face(3) && a.face(4) == b.face(4) && a.face(5) == b.face(5));
}

} // verus!
