//! The moves keep the color inventory of a cube.
use vstd::prelude::*;
use crate::cube::{quarter_src, shaped, turn_view, lemma_turn_src_range, Turn};
use crate::laws::lemma_move_involutions;
use crate::pattern::{corner_count, corners_upto, edge_count, edges_upto, face_corners, face_edges};

verus! {

proof fn lemma_counts_unfold(v: Seq<Seq<u32>>, k: u32)
    ensures
        corner_count(v, k) == face_corners(v[0], k) + face_corners(v[1], k) + face_corners(v[2], k)
            + face_corners(v[3], k) + face_corners(v[4], k) + face_corners(v[5], k),
        edge_count(v, k) == face_edges(v[0], k) + face_edges(v[1], k) + face_edges(v[2], k)
            + face_edges(v[3], k) + face_edges(v[4], k) + face_edges(v[5], k),
{
    reveal_with_fuel(corners_upto, 7);
    reveal_with_fuel(edges_upto, 7);
}

/// The stickers after a clockwise quarter turn of axis `c`.
pub open spec fn quarter_view(v: Seq<Seq<u32>>, c: int) -> Seq<Seq<u32>> {
    Seq::new(6, |f: int| Seq::new(9, |i: int| v[quarter_src(c, f, i).0][quarter_src(c, f, i).1]))
}

proof fn lemma_turn_is_quarter(v: Seq<Seq<u32>>, m: Turn)
    requires
        m.variant() == 0,
    ensures
        turn_view(v, m) == quarter_view(v, m.class()),
{
    let w = turn_view(v, m);
    let x = quarter_view(v, m.class());
    assert forall|f: int, i: int| 0 <= f < 6 && 0 <= i < 9 implies #[trigger] w[f][i] == x[f][i] by {
        lemma_turn_src_range(m, f, i);
    }
    assert(w =~~= x);
}

// For each axis: where a clockwise quarter turn takes every corner (then every
// edge and center) sticker from, position by position. Both counts are then
// sums of the same terms in another order.
#[verifier::rlimit(100)]
proof fn lemma_corners_u(v: Seq<Seq<u32>>, k: u32)
    requires
        shaped(v),
    ensures
        corner_count(quarter_view(v, 0), k) == corner_count(v, k),
{
    let x = quarter_view(v, 0);
    assert(x[0][0] == v[0][6]);
    assert(x[0][2] == v[0][0]);
    assert(x[0][6] == v[0][8]);
    assert(x[0][8] == v[0][2]);
    assert(x[1][0] == v[1][0]);
    assert(x[1][2] == v[1][2]);
    assert(x[1][6] == v[1][6]);
    assert(x[1][8] == v[1][8]);
    assert(x[2][0] == v[2][0]);
    assert(x[2][2] == v[4][0]);
    assert(x[2][6] == v[2][6]);
    assert(x[2][8] == v[4][2]);
    assert(x[3][0] == v[5][6]);
    assert(x[3][2] == v[3][2]);
    assert(x[3][6] == v[5][8]);
    assert(x[3][8] == v[3][8]);
    assert(x[4][0] == v[3][6]);
    assert(x[4][2] == v[3][0]);
    assert(x[4][6] == v[4][6]);
    assert(x[4][8] == v[4][8]);
    assert(x[5][0] == v[5][0]);
    assert(x[5][2] == v[5][2]);
    assert(x[5][6] == v[2][8]);
    assert(x[5][8] == v[2][2]);
    lemma_counts_unfold(v, k);
    lemma_counts_unfold(x, k);
}

#[verifier::rlimit(100)]
proof fn lemma_edges_u(v: Seq<Seq<u32>>, k: u32)
    requires
        shaped(v),
    ensures
        edge_count(quarter_view(v, 0), k) == edge_count(v, k),
{
    let x = quarter_view(v, 0);
    assert(x[0][1] == v[0][3]);
    assert(x[0][3] == v[0][7]);
    assert(x[0][4] == v[0][4]);
    assert(x[0][5] == v[0][1]);
    assert(x[0][7] == v[0][5]);
    assert(x[1][1] == v[1][1]);
    assert(x[1][3] == v[1][3]);
    assert(x[1][4] == v[1][4]);
    assert(x[1][5] == v[1][5]);
    assert(x[1][7] == v[1][7]);
    assert(x[2][1] == v[2][1]);
    assert(x[2][3] == v[2][3]);
    assert(x[2][4] == v[2][4]);
    assert(x[2][5] == v[4][1]);
    assert(x[2][7] == v[2][7]);
    assert(x[3][1] == v[3][1]);
    assert(x[3][3] == v[5][7]);
    assert(x[3][4] == v[3][4]);
    assert(x[3][5] == v[3][5]);
    assert(x[3][7] == v[3][7]);
    assert(x[4][1] == v[3][3]);
    assert(x[4][3] == v[4][3]);
    assert(x[4][4] == v[4][4]);
    assert(x[4][5] == v[4][5]);
    assert(x[4][7] == v[4][7]);
    assert(x[5][1] == v[5][1]);
    assert(x[5][3] == v[5][3]);
    assert(x[5][4] == v[5][4]);
    assert(x[5][5] == v[5][5]);
    assert(x[5][7] == v[2][5]);
    lemma_counts_unfold(v, k);
    lemma_counts_unfold(x, k);
}

proof fn lemma_conserves_u(v: Seq<Seq<u32>>, k: u32)
    requires
        shaped(v),
    ensures
        corner_count(turn_view(v, Turn::U), k) == corner_count(v, k),
        edge_count(turn_view(v, Turn::U), k) == edge_count(v, k),
{
    lemma_turn_is_quarter(v, Turn::U);
    lemma_corners_u(v, k);
    lemma_edges_u(v, k);
}

#[verifier::rlimit(100)]
proof fn lemma_corners_d(v: Seq<Seq<u32>>, k: u32)
    requires
        shaped(v),
    ensures
        corner_count(quarter_view(v, 1), k) == corner_count(v, k),
{
    let x = quarter_view(v, 1);
    assert(x[0][0] == v[0][0]);
    assert(x[0][2] == v[0][2]);
    assert(x[0][6] == v[0][6]);
    assert(x[0][8] == v[0][8]);
    assert(x[1][0] == v[1][6]);
    assert(x[1][2] == v[1][0]);
    assert(x[1][6] == v[1][8]);
    assert(x[1][8] == v[1][2]);
    assert(x[2][0] == v[5][2]);
    assert(x[2][2] == v[2][2]);
    assert(x[2][6] == v[5][0]);
    assert(x[2][8] == v[2][8]);
    assert(x[3][0] == v[3][0]);
    assert(x[3][2] == v[4][8]);
    assert(x[3][6] == v[3][6]);
    assert(x[3][8] == v[4][6]);
    assert(x[4][0] == v[4][0]);
    assert(x[4][2] == v[4][2]);
    assert(x[4][6] == v[2][0]);
    assert(x[4][8] == v[2][6]);
    assert(x[5][0] == v[3][2]);
    assert(x[5][2] == v[3][8]);
    assert(x[5][6] == v[5][6]);
    assert(x[5][8] == v[5][8]);
    lemma_counts_unfold(v, k);
    lemma_counts_unfold(x, k);
}

#[verifier::rlimit(100)]
proof fn lemma_edges_d(v: Seq<Seq<u32>>, k: u32)
    requires
        shaped(v),
    ensures
        edge_count(quarter_view(v, 1), k) == edge_count(v, k),
{
    let x = quarter_view(v, 1);
    assert(x[0][1] == v[0][1]);
    assert(x[0][3] == v[0][3]);
    assert(x[0][4] == v[0][4]);
    assert(x[0][5] == v[0][5]);
    assert(x[0][7] == v[0][7]);
    assert(x[1][1] == v[1][3]);
    assert(x[1][3] == v[1][7]);
    assert(x[1][4] == v[1][4]);
    assert(x[1][5] == v[1][1]);
    assert(x[1][7] == v[1][5]);
    assert(x[2][1] == v[2][1]);
    assert(x[2][3] == v[5][1]);
    assert(x[2][4] == v[2][4]);
    assert(x[2][5] == v[2][5]);
    assert(x[2][7] == v[2][7]);
    assert(x[3][1] == v[3][1]);
    assert(x[3][3] == v[3][3]);
    assert(x[3][4] == v[3][4]);
    assert(x[3][5] == v[4][7]);
    assert(x[3][7] == v[3][7]);
    assert(x[4][1] == v[4][1]);
    assert(x[4][3] == v[4][3]);
    assert(x[4][4] == v[4][4]);
    assert(x[4][5] == v[4][5]);
    assert(x[4][7] == v[2][3]);
    assert(x[5][1] == v[3][5]);
    assert(x[5][3] == v[5][3]);
    assert(x[5][4] == v[5][4]);
    assert(x[5][5] == v[5][5]);
    assert(x[5][7] == v[5][7]);
    lemma_counts_unfold(v, k);
    lemma_counts_unfold(x, k);
}

proof fn lemma_conserves_d(v: Seq<Seq<u32>>, k: u32)
    requires
        shaped(v),
    ensures
        corner_count(turn_view(v, Turn::D), k) == corner_count(v, k),
        edge_count(turn_view(v, Turn::D), k) == edge_count(v, k),
{
    lemma_turn_is_quarter(v, Turn::D);
    lemma_corners_d(v, k);
    lemma_edges_d(v, k);
}

#[verifier::rlimit(100)]
proof fn lemma_corners_l(v: Seq<Seq<u32>>, k: u32)
    requires
        shaped(v),
    ensures
        corner_count(quarter_view(v, 2), k) == corner_count(v, k),
{
    let x = quarter_view(v, 2);
    assert(x[0][0] == v[5][0]);
    assert(x[0][2] == v[0][2]);
    assert(x[0][6] == v[5][6]);
    assert(x[0][8] == v[0][8]);
    assert(x[1][0] == v[4][0]);
    assert(x[1][2] == v[1][2]);
    assert(x[1][6] == v[4][6]);
    assert(x[1][8] == v[1][8]);
    assert(x[2][0] == v[2][6]);
    assert(x[2][2] == v[2][0]);
    assert(x[2][6] == v[2][8]);
    assert(x[2][8] == v[2][2]);
    assert(x[3][0] == v[3][0]);
    assert(x[3][2] == v[3][2]);
    assert(x[3][6] == v[3][6]);
    assert(x[3][8] == v[3][8]);
    assert(x[4][0] == v[0][0]);
    assert(x[4][2] == v[4][2]);
    assert(x[4][6] == v[0][6]);
    assert(x[4][8] == v[4][8]);
    assert(x[5][0] == v[1][0]);
    assert(x[5][2] == v[5][2]);
    assert(x[5][6] == v[1][6]);
    assert(x[5][8] == v[5][8]);
    lemma_counts_unfold(v, k);
    lemma_counts_unfold(x, k);
}

#[verifier::rlimit(100)]
proof fn lemma_edges_l(v: Seq<Seq<u32>>, k: u32)
    requires
        shaped(v),
    ensures
        edge_count(quarter_view(v, 2), k) == edge_count(v, k),
{
    let x = quarter_view(v, 2);
    assert(x[0][1] == v[0][1]);
    assert(x[0][3] == v[5][3]);
    assert(x[0][4] == v[0][4]);
    assert(x[0][5] == v[0][5]);
    assert(x[0][7] == v[0][7]);
    assert(x[1][1] == v[1][1]);
    assert(x[1][3] == v[4][3]);
    assert(x[1][4] == v[1][4]);
    assert(x[1][5] == v[1][5]);
    assert(x[1][7] == v[1][7]);
    assert(x[2][1] == v[2][3]);
    assert(x[2][3] == v[2][7]);
    assert(x[2][4] == v[2][4]);
    assert(x[2][5] == v[2][1]);
    assert(x[2][7] == v[2][5]);
    assert(x[3][1] == v[3][1]);
    assert(x[3][3] == v[3][3]);
    assert(x[3][4] == v[3][4]);
    assert(x[3][5] == v[3][5]);
    assert(x[3][7] == v[3][7]);
    assert(x[4][1] == v[4][1]);
    assert(x[4][3] == v[0][3]);
    assert(x[4][4] == v[4][4]);
    assert(x[4][5] == v[4][5]);
    assert(x[4][7] == v[4][7]);
    assert(x[5][1] == v[5][1]);
    assert(x[5][3] == v[1][3]);
    assert(x[5][4] == v[5][4]);
    assert(x[5][5] == v[5][5]);
    assert(x[5][7] == v[5][7]);
    lemma_counts_unfold(v, k);
    assert(face_edges(x[3], k) == face_edges(v[3], k));
    assert(face_edges(x[2], k) == face_edges(v[2], k));
    assert(face_edges(x[0], k) + face_edges(x[1], k) + face_edges(x[4], k) + face_edges(x[5], k)
        == face_edges(v[0], k) + face_edges(v[1], k) + face_edges(v[4], k) + face_edges(v[5], k));
    lemma_counts_unfold(x, k);
}

proof fn lemma_conserves_l(v: Seq<Seq<u32>>, k: u32)
    requires
        shaped(v),
    ensures
        corner_count(turn_view(v, Turn::L), k) == corner_count(v, k),
        edge_count(turn_view(v, Turn::L), k) == edge_count(v, k),
{
    lemma_turn_is_quarter(v, Turn::L);
    lemma_corners_l(v, k);
    lemma_edges_l(v, k);
}

#[verifier::rlimit(100)]
proof fn lemma_corners_r(v: Seq<Seq<u32>>, k: u32)
    requires
        shaped(v),
    ensures
        corner_count(quarter_view(v, 3), k) == corner_count(v, k),
{
    let x = quarter_view(v, 3);
    assert(x[0][0] == v[0][0]);
    assert(x[0][2] == v[4][2]);
    assert(x[0][6] == v[0][6]);
    assert(x[0][8] == v[4][8]);
    assert(x[1][0] == v[1][0]);
    assert(x[1][2] == v[5][2]);
    assert(x[1][6] == v[1][6]);
    assert(x[1][8] == v[5][8]);
    assert(x[2][0] == v[2][0]);
    assert(x[2][2] == v[2][2]);
    assert(x[2][6] == v[2][6]);
    assert(x[2][8] == v[2][8]);
    assert(x[3][0] == v[3][6]);
    assert(x[3][2] == v[3][0]);
    assert(x[3][6] == v[3][8]);
    assert(x[3][8] == v[3][2]);
    assert(x[4][0] == v[4][0]);
    assert(x[4][2] == v[1][2]);
    assert(x[4][6] == v[4][6]);
    assert(x[4][8] == v[1][8]);
    assert(x[5][0] == v[5][0]);
    assert(x[5][2] == v[0][2]);
    assert(x[5][6] == v[5][6]);
    assert(x[5][8] == v[0][8]);
    lemma_counts_unfold(v, k);
    lemma_counts_unfold(x, k);
}

#[verifier::rlimit(100)]
proof fn lemma_edges_r(v: Seq<Seq<u32>>, k: u32)
    requires
        shaped(v),
    ensures
        edge_count(quarter_view(v, 3), k) == edge_count(v, k),
{
    let x = quarter_view(v, 3);
    assert(x[0][1] == v[0][1]);
    assert(x[0][3] == v[0][3]);
    assert(x[0][4] == v[0][4]);
    assert(x[0][5] == v[4][5]);
    assert(x[0][7] == v[0][7]);
    assert(x[1][1] == v[1][1]);
    assert(x[1][3] == v[1][3]);
    assert(x[1][4] == v[1][4]);
    assert(x[1][5] == v[5][5]);
    assert(x[1][7] == v[1][7]);
    assert(x[2][1] == v[2][1]);
    assert(x[2][3] == v[2][3]);
    assert(x[2][4] == v[2][4]);
    assert(x[2][5] == v[2][5]);
    assert(x[2][7] == v[2][7]);
    assert(x[3][1] == v[3][3]);
    assert(x[3][3] == v[3][7]);
    assert(x[3][4] == v[3][4]);
    assert(x[3][5] == v[3][1]);
    assert(x[3][7] == v[3][5]);
    assert(x[4][1] == v[4][1]);
    assert(x[4][3] == v[4][3]);
    assert(x[4][4] == v[4][4]);
    assert(x[4][5] == v[1][5]);
    assert(x[4][7] == v[4][7]);
    assert(x[5][1] == v[5][1]);
    assert(x[5][3] == v[5][3]);
    assert(x[5][4] == v[5][4]);
    assert(x[5][5] == v[0][5]);
    assert(x[5][7] == v[5][7]);
    lemma_counts_unfold(v, k);
    lemma_counts_unfold(x, k);
}

proof fn lemma_conserves_r(v: Seq<Seq<u32>>, k: u32)
    requires
        shaped(v),
    ensures
        corner_count(turn_view(v, Turn::R), k) == corner_count(v, k),
        edge_count(turn_view(v, Turn::R), k) == edge_count(v, k),
{
    lemma_turn_is_quarter(v, Turn::R);
    lemma_corners_r(v, k);
    lemma_edges_r(v, k);
}

#[verifier::rlimit(100)]
proof fn lemma_corners_f(v: Seq<Seq<u32>>, k: u32)
    requires
        shaped(v),
    ensures
        corner_count(quarter_view(v, 4), k) == corner_count(v, k),
{
    let x = quarter_view(v, 4);
    assert(x[0][0] == v[0][0]);
    assert(x[0][2] == v[0][2]);
    assert(x[0][6] == v[2][6]);
    assert(x[0][8] == v[2][8]);
    assert(x[1][0] == v[3][8]);
    assert(x[1][2] == v[3][6]);
    assert(x[1][6] == v[1][6]);
    assert(x[1][8] == v[1][8]);
    assert(x[2][0] == v[2][0]);
    assert(x[2][2] == v[2][2]);
    assert(x[2][6] == v[1][2]);
    assert(x[2][8] == v[1][0]);
    assert(x[3][0] == v[3][0]);
    assert(x[3][2] == v[3][2]);
    assert(x[3][6] == v[0][6]);
    assert(x[3][8] == v[0][8]);
    assert(x[4][0] == v[4][6]);
    assert(x[4][2] == v[4][0]);
    assert(x[4][6] == v[4][8]);
    assert(x[4][8] == v[4][2]);
    assert(x[5][0] == v[5][0]);
    assert(x[5][2] == v[5][2]);
    assert(x[5][6] == v[5][6]);
    assert(x[5][8] == v[5][8]);
    lemma_counts_unfold(v, k);
    lemma_counts_unfold(x, k);
}

#[verifier::rlimit(100)]
proof fn lemma_edges_f(v: Seq<Seq<u32>>, k: u32)
    requires
        shaped(v),
    ensures
        edge_count(quarter_view(v, 4), k) == edge_count(v, k),
{
    let x = quarter_view(v, 4);
    assert(x[0][1] == v[0][1]);
    assert(x[0][3] == v[0][3]);
    assert(x[0][4] == v[0][4]);
    assert(x[0][5] == v[0][5]);
    assert(x[0][7] == v[2][7]);
    assert(x[1][1] == v[3][7]);
    assert(x[1][3] == v[1][3]);
    assert(x[1][4] == v[1][4]);
    assert(x[1][5] == v[1][5]);
    assert(x[1][7] == v[1][7]);
    assert(x[2][1] == v[2][1]);
    assert(x[2][3] == v[2][3]);
    assert(x[2][4] == v[2][4]);
    assert(x[2][5] == v[2][5]);
    assert(x[2][7] == v[1][1]);
    assert(x[3][1] == v[3][1]);
    assert(x[3][3] == v[3][3]);
    assert(x[3][4] == v[3][4]);
    assert(x[3][5] == v[3][5]);
    assert(x[3][7] == v[0][7]);
    assert(x[4][1] == v[4][3]);
    assert(x[4][3] == v[4][7]);
    assert(x[4][4] == v[4][4]);
    assert(x[4][5] == v[4][1]);
    assert(x[4][7] == v[4][5]);
    assert(x[5][1] == v[5][1]);
    assert(x[5][3] == v[5][3]);
    assert(x[5][4] == v[5][4]);
    assert(x[5][5] == v[5][5]);
    assert(x[5][7] == v[5][7]);
    lemma_counts_unfold(v, k);
    lemma_counts_unfold(x, k);
}

proof fn lemma_conserves_f(v: Seq<Seq<u32>>, k: u32)
    requires
        shaped(v),
    ensures
        corner_count(turn_view(v, Turn::F), k) == corner_count(v, k),
        edge_count(turn_view(v, Turn::F), k) == edge_count(v, k),
{
    lemma_turn_is_quarter(v, Turn::F);
    lemma_corners_f(v, k);
    lemma_edges_f(v, k);
}

#[verifier::rlimit(100)]
proof fn lemma_corners_b(v: Seq<Seq<u32>>, k: u32)
    requires
        shaped(v),
    ensures
        corner_count(quarter_view(v, 5), k) == corner_count(v, k),
{
    let x = quarter_view(v, 5);
    assert(x[0][0] == v[3][0]);
    assert(x[0][2] == v[3][2]);
    assert(x[0][6] == v[0][6]);
    assert(x[0][8] == v[0][8]);
    assert(x[1][0] == v[1][0]);
    assert(x[1][2] == v[1][2]);
    assert(x[1][6] == v[2][2]);
    assert(x[1][8] == v[2][0]);
    assert(x[2][0] == v[0][0]);
    assert(x[2][2] == v[0][2]);
    assert(x[2][6] == v[2][6]);
    assert(x[2][8] == v[2][8]);
    assert(x[3][0] == v[1][8]);
    assert(x[3][2] == v[1][6]);
    assert(x[3][6] == v[3][6]);
    assert(x[3][8] == v[3][8]);
    assert(x[4][0] == v[4][0]);
    assert(x[4][2] == v[4][2]);
    assert(x[4][6] == v[4][6]);
    assert(x[4][8] == v[4][8]);
    assert(x[5][0] == v[5][6]);
    assert(x[5][2] == v[5][0]);
    assert(x[5][6] == v[5][8]);
    assert(x[5][8] == v[5][2]);
    lemma_counts_unfold(v, k);
    lemma_counts_unfold(x, k);
}

#[verifier::rlimit(100)]
proof fn lemma_edges_b(v: Seq<Seq<u32>>, k: u32)
    requires
        shaped(v),
    ensures
        edge_count(quarter_view(v, 5), k) == edge_count(v, k),
{
    let x = quarter_view(v, 5);
    assert(x[0][1] == v[3][1]);
    assert(x[0][3] == v[0][3]);
    assert(x[0][4] == v[0][4]);
    assert(x[0][5] == v[0][5]);
    assert(x[0][7] == v[0][7]);
    assert(x[1][1] == v[1][1]);
    assert(x[1][3] == v[1][3]);
    assert(x[1][4] == v[1][4]);
    assert(x[1][5] == v[1][5]);
    assert(x[1][7] == v[2][1]);
    assert(x[2][1] == v[0][1]);
    assert(x[2][3] == v[2][3]);
    assert(x[2][4] == v[2][4]);
    assert(x[2][5] == v[2][5]);
    assert(x[2][7] == v[2][7]);
    assert(x[3][1] == v[1][7]);
    assert(x[3][3] == v[3][3]);
    assert(x[3][4] == v[3][4]);
    assert(x[3][5] == v[3][5]);
    assert(x[3][7] == v[3][7]);
    assert(x[4][1] == v[4][1]);
    assert(x[4][3] == v[4][3]);
    assert(x[4][4] == v[4][4]);
    assert(x[4][5] == v[4][5]);
    assert(x[4][7] == v[4][7]);
    assert(x[5][1] == v[5][3]);
    assert(x[5][3] == v[5][7]);
    assert(x[5][4] == v[5][4]);
    assert(x[5][5] == v[5][1]);
    assert(x[5][7] == v[5][5]);
    lemma_counts_unfold(v, k);
    lemma_counts_unfold(x, k);
}

proof fn lemma_conserves_b(v: Seq<Seq<u32>>, k: u32)
    requires
        shaped(v),
    ensures
        corner_count(turn_view(v, Turn::B), k) == corner_count(v, k),
        edge_count(turn_view(v, Turn::B), k) == edge_count(v, k),
{
    lemma_turn_is_quarter(v, Turn::B);
    lemma_corners_b(v, k);
    lemma_edges_b(v, k);
}

#[verifier::rlimit(100)]
proof fn lemma_corners_m(v: Seq<Seq<u32>>, k: u32)
    requires
        shaped(v),
    ensures
        corner_count(quarter_view(v, 6), k) == corner_count(v, k),
{
    let x = quarter_view(v, 6);
    assert(x[0][0] == v[0][0]);
    assert(x[0][2] == v[0][2]);
    assert(x[0][6] == v[0][6]);
    assert(x[0][8] == v[0][8]);
    assert(x[1][0] == v[1][0]);
    assert(x[1][2] == v[1][2]);
    assert(x[1][6] == v[1][6]);
    assert(x[1][8] == v[1][8]);
    assert(x[2][0] == v[2][0]);
    assert(x[2][2] == v[2][2]);
    assert(x[2][6] == v[2][6]);
    assert(x[2][8] == v[2][8]);
    assert(x[3][0] == v[3][0]);
    assert(x[3][2] == v[3][2]);
    assert(x[3][6] == v[3][6]);
    assert(x[3][8] == v[3][8]);
    assert(x[4][0] == v[4][0]);
    assert(x[4][2] == v[4][2]);
    assert(x[4][6] == v[4][6]);
    assert(x[4][8] == v[4][8]);
    assert(x[5][0] == v[5][0]);
    assert(x[5][2] == v[5][2]);
    assert(x[5][6] == v[5][6]);
    assert(x[5][8] == v[5][8]);
    lemma_counts_unfold(v, k);
    lemma_counts_unfold(x, k);
}

#[verifier::rlimit(100)]
proof fn lemma_edges_m(v: Seq<Seq<u32>>, k: u32)
    requires
        shaped(v),
    ensures
        edge_count(quarter_view(v, 6), k) == edge_count(v, k),
{
    let x = quarter_view(v, 6);
    assert(x[0][1] == v[5][1]);
    assert(x[0][3] == v[0][3]);
    assert(x[0][4] == v[5][4]);
    assert(x[0][5] == v[0][5]);
    assert(x[0][7] == v[5][7]);
    assert(x[1][1] == v[4][1]);
    assert(x[1][3] == v[1][3]);
    assert(x[1][4] == v[4][4]);
    assert(x[1][5] == v[1][5]);
    assert(x[1][7] == v[4][7]);
    assert(x[2][1] == v[2][1]);
    assert(x[2][3] == v[2][3]);
    assert(x[2][4] == v[2][4]);
    assert(x[2][5] == v[2][5]);
    assert(x[2][7] == v[2][7]);
    assert(x[3][1] == v[3][1]);
    assert(x[3][3] == v[3][3]);
    assert(x[3][4] == v[3][4]);
    assert(x[3][5] == v[3][5]);
    assert(x[3][7] == v[3][7]);
    assert(x[4][1] == v[0][1]);
    assert(x[4][3] == v[4][3]);
    assert(x[4][4] == v[0][4]);
    assert(x[4][5] == v[4][5]);
    assert(x[4][7] == v[0][7]);
    assert(x[5][1] == v[1][1]);
    assert(x[5][3] == v[5][3]);
    assert(x[5][4] == v[1][4]);
    assert(x[5][5] == v[5][5]);
    assert(x[5][7] == v[1][7]);
    lemma_counts_unfold(v, k);
    lemma_counts_unfold(x, k);
}

proof fn lemma_conserves_m(v: Seq<Seq<u32>>, k: u32)
    requires
        shaped(v),
    ensures
        corner_count(turn_view(v, Turn::M), k) == corner_count(v, k),
        edge_count(turn_view(v, Turn::M), k) == edge_count(v, k),
{
    lemma_turn_is_quarter(v, Turn::M);
    lemma_corners_m(v, k);
    lemma_edges_m(v, k);
}


/// The clockwise quarter turn of the axis of `m`.
pub open spec fn clockwise_of(m: Turn) -> Turn {
    let c = m.class();
    if c == 0 {
        Turn::U
    } else if c == 1 {
        Turn::D
    } else if c == 2 {
        Turn::L
    } else if c == 3 {
        Turn::R
    } else if c == 4 {
        Turn::F
    } else if c == 5 {
        Turn::B
    } else {
        Turn::M
    }
}

proof fn lemma_clockwise_conserves(v: Seq<Seq<u32>>, m: Turn, k: u32)
    requires
        shaped(v),
    ensures
        corner_count(turn_view(v, clockwise_of(m)), k) == corner_count(v, k),
        edge_count(turn_view(v, clockwise_of(m)), k) == edge_count(v, k),
{
    let c = m.class();
    if c == 0 {
        lemma_conserves_u(v, k);
    } else if c == 1 {
        lemma_conserves_d(v, k);
    } else if c == 2 {
        lemma_conserves_l(v, k);
    } else if c == 3 {
        lemma_conserves_r(v, k);
    } else if c == 4 {
        lemma_conserves_f(v, k);
    } else if c == 5 {
        lemma_conserves_b(v, k);
    } else {
        lemma_conserves_m(v, k);
    }
}

/// A move keeps, for every color, the number of its corner stickers and the number
/// of its edge and center stickers, and so the number of its stickers over all faces.
pub proof fn lemma_color_conservation(v: Seq<Seq<u32>>, m: Turn, k: u32)
    requires
        shaped(v),
    ensures
        corner_count(turn_view(v, m), k) == corner_count(v, k),
        edge_count(turn_view(v, m), k) == edge_count(v, k),
        corner_count(turn_view(v, m), k) + edge_count(turn_view(v, m), k) == corner_count(v, k) + edge_count(v, k),
{
    let q = clockwise_of(m);
    let w = turn_view(v, m);
    lemma_clockwise_conserves(v, m, k);
    if m.variant() == 2 {
        lemma_move_involutions(v, q);
        assert(q.half() == m);
        lemma_clockwise_conserves(turn_view(v, q), m, k);
    } else if m.variant() == 1 {
        lemma_move_involutions(v, m);
        assert(m.inverse() == q);
        lemma_clockwise_conserves(w, m, k);
    } else {
        assert(m == q);
    }
}

} // verus!
