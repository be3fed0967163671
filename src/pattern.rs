//! Wildcard pattern matching and the color inventory of a cube.
use vstd::prelude::*;
use crate::cube::{color_of, Color, Cube};
use crate::face::{slot, slot_of};

verus! {

/// Every slot of the pattern face is the wildcard or the face's own code.
pub open spec fn face_matches(v: Seq<u32>, p: Seq<u32>) -> bool {
    forall|i: int| 0 <= i < 9 ==> #[trigger] p[i] == 0 || p[i] == v[i]
}

/// A cube matches a pattern when all six faces do.
pub open spec fn cube_matches(v: Seq<Seq<u32>>, p: Seq<Seq<u32>>) -> bool {
    forall|f: int| 0 <= f < 6 ==> #[trigger] face_matches(v[f], p[f])
}

/// 1 when `b` holds, else 0.
pub open spec fn ind(b: bool) -> nat {
    if b { 1 } else { 0 }
}

/// How many corner slots (0, 2, 6, 8) of a face hold code `k`.
pub open spec fn face_corners(s: Seq<u32>, k: u32) -> nat {
    ind(s[0] == k) + ind(s[2] == k) + ind(s[6] == k) + ind(s[8] == k)
}

/// How many edge slots (1, 3, 5, 7) and centers of a face hold code `k`.
pub open spec fn face_edges(s: Seq<u32>, k: u32) -> nat {
    ind(s[1] == k) + ind(s[3] == k) + ind(s[4] == k) + ind(s[5] == k) + ind(s[7] == k)
}

/// Corner stickers of code `k` on the first `n` faces.
pub open spec fn corners_upto(v: Seq<Seq<u32>>, k: u32, n: int) -> nat
    decreases n,
{
    if n <= 0 { 0 } else { corners_upto(v, k, n - 1) + face_corners(v[n - 1], k) }
}

/// Edge and center stickers of code `k` on the first `n` faces.
pub open spec fn edges_upto(v: Seq<Seq<u32>>, k: u32, n: int) -> nat
    decreases n,
{
    if n <= 0 { 0 } else { edges_upto(v, k, n - 1) + face_edges(v[n - 1], k) }
}

pub open spec fn corner_count(v: Seq<Seq<u32>>, k: u32) -> nat {
    corners_upto(v, k, 6)
}

pub open spec fn edge_count(v: Seq<Seq<u32>>, k: u32) -> nat {
    edges_upto(v, k, 6)
}

/// The state has fewer corners, or fewer edges, of color code `k` than the pattern asks for.
pub open spec fn short_of(v: Seq<Seq<u32>>, p: Seq<Seq<u32>>, k: u32) -> bool {
    corner_count(v, k) < corner_count(p, k) || edge_count(v, k) < edge_count(p, k)
}

/// The real colors of codes 1..=n that the state is short of, in code order.
pub open spec fn missing_upto(v: Seq<Seq<u32>>, p: Seq<Seq<u32>>, n: int) -> Seq<Color>
    decreases n,
{
    if n <= 0 {
        seq![]
    } else {
        missing_upto(v, p, n - 1) + if short_of(v, p, n as u32) { seq![color_of(n as u32)] } else { seq![] }
    }
}

/// The slots of face word `w` as a sequence.
pub open spec fn face_view(w: u32) -> Seq<u32> {
    Seq::new(9, |i: int| slot(w, i))
}

fn add_counts(a: [u8; 6], b: [u8; 6]) -> (r: [u8; 6])
    requires
        forall|j: int| 0 <= j < 6 ==> #[trigger] a@[j] + b@[j] <= 255,
    ensures
        forall|j: int| 0 <= j < 6 ==> #[trigger] r@[j] == a@[j] + b@[j],
{
    proof {
        assert(a@[0] + b@[0] <= 255 && a@[1] + b@[1] <= 255 && a@[2] + b@[2] <= 255);
        assert(a@[3] + b@[3] <= 255 && a@[4] + b@[4] <= 255 && a@[5] + b@[5] <= 255);
    }
    [a[0] + b[0], a[1] + b[1], a[2] + b[2], a[3] + b[3], a[4] + b[4], a[5] + b[5]]
}

fn hit(face: u32, i: u32, k: u32) -> (r: u8)
    requires
        i < 9,
    ensures
        r == ind(slot(face, i as int) == k),
        r <= 1,
{
    if slot_of(face, i) == k { 1 } else { 0 }
}

fn count_color(face: u32, k: u32) -> (r: (u8, u8))
    ensures
        r.0 == face_corners(face_view(face), k),
        r.1 == face_edges(face_view(face), k),
        r.0 <= 4,
        r.1 <= 5,
{
    let fv = Ghost(face_view(face));
    let c = hit(face, 0, k) + hit(face, 2, k) + hit(face, 6, k) + hit(face, 8, k);
    let e = hit(face, 1, k) + hit(face, 3, k) + hit(face, 4, k) + hit(face, 5, k) + hit(face, 7, k);
    proof {
        assert(fv@[0] == slot(face, 0) && fv@[1] == slot(face, 1) && fv@[2] == slot(face, 2));
        assert(fv@[3] == slot(face, 3) && fv@[4] == slot(face, 4) && fv@[5] == slot(face, 5));
        assert(fv@[6] == slot(face, 6) && fv@[7] == slot(face, 7) && fv@[8] == slot(face, 8));
    }
    (c, e)
}

impl Cube {
    /// Whether each slot of `pattern` is the wildcard or equals the slot of `face`.
    fn matches_face(face: u32, pattern: u32) -> (r: bool)
        ensures
            r == face_matches(face_view(face), face_view(pattern)),
    {
        let r = (slot_of(pattern, 0) == 0 || slot_of(pattern, 0) == slot_of(face, 0))
            && (slot_of(pattern, 1) == 0 || slot_of(pattern, 1) == slot_of(face, 1))
            && (slot_of(pattern, 2) == 0 || slot_of(pattern, 2) == slot_of(face, 2))
            && (slot_of(pattern, 3) == 0 || slot_of(pattern, 3) == slot_of(face, 3))
            && (slot_of(pattern, 4) == 0 || slot_of(pattern, 4) == slot_of(face, 4))
            && (slot_of(pattern, 5) == 0 || slot_of(pattern, 5) == slot_of(face, 5))
            && (slot_of(pattern, 6) == 0 || slot_of(pattern, 6) == slot_of(face, 6))
            && (slot_of(pattern, 7) == 0 || slot_of(pattern, 7) == slot_of(face, 7))
            && (slot_of(pattern, 8) == 0 || slot_of(pattern, 8) == slot_of(face, 8));
        proof {
            let v = face_view(face);
            let p = face_view(pattern);
            if r {
                assert forall|i: int| 0 <= i < 9 implies #[trigger] p[i] == 0 || p[i] == v[i] by {
                    assert(p[i] == slot(pattern, i) && v[i] == slot(face, i));
                }
            }
            if face_matches(v, p) {
                assert(p[0] == 0 || p[0] == v[0]);
                assert(p[1] == 0 || p[1] == v[1]);
                assert(p[2] == 0 || p[2] == v[2]);
                assert(p[3] == 0 || p[3] == v[3]);
                assert(p[4] == 0 || p[4] == v[4]);
                assert(p[5] == 0 || p[5] == v[5]);
                assert(p[6] == 0 || p[6] == v[6]);
                assert(p[7] == 0 || p[7] == v[7]);
                assert(p[8] == 0 || p[8] == v[8]);
            }
        }
        r
    }

    /// Per real color (codes 1..=6, at index code - 1): corner stickers, then edge and
    /// center stickers of the face.
    fn colors_in_face(face: u32) -> (r: ([u8; 6], [u8; 6]))
        ensures
            forall|j: int| 0 <= j < 6 ==> #[trigger] r.0@[j] == face_corners(face_view(face), (j + 1) as u32),
            forall|j: int| 0 <= j < 6 ==> #[trigger] r.1@[j] == face_edges(face_view(face), (j + 1) as u32),
            forall|j: int| 0 <= j < 6 ==> #[trigger] r.0@[j] <= 4 && r.1@[j] <= 5,
    {
        let (c1, e1) = count_color(face, 1);
        let (c2, e2) = count_color(face, 2);
        let (c3, e3) = count_color(face, 3);
        let (c4, e4) = count_color(face, 4);
        let (c5, e5) = count_color(face, 5);
        let (c6, e6) = count_color(face, 6);
        let r = ([c1, c2, c3, c4, c5, c6], [e1, e2, e3, e4, e5, e6]);
        proof {
            assert forall|j: int| 0 <= j < 6 implies #[trigger] r.0@[j] == face_corners(face_view(face), (j + 1) as u32)
                && r.1@[j] == face_edges(face_view(face), (j + 1) as u32) && r.0@[j] <= 4 && r.1@[j] <= 5 by {
                if j == 0 {
                } else if j == 1 {
                } else if j == 2 {
                } else if j == 3 {
                } else if j == 4 {
                } else {
                }
            }
        }
        r
    }

    /// Per real color (index code - 1): corner stickers, then edge and center
    /// stickers, over all six faces.
    fn colors(&self) -> (r: ([u8; 6], [u8; 6]))
        ensures
            forall|j: int| 0 <= j < 6 ==> #[trigger] r.0@[j] == corner_count(self@, (j + 1) as u32),
            forall|j: int| 0 <= j < 6 ==> #[trigger] r.1@[j] == edge_count(self@, (j + 1) as u32),
    {
        let faces = self.faces();
        let mut corners: [u8; 6] = [0; 6];
        let mut edges: [u8; 6] = [0; 6];
        let mut n: usize = 0;
        while n < 6
            invariant
                n <= 6,
                forall|f: int| 0 <= f < 6 ==> #[trigger] faces@[f] == self.face(f),
                forall|j: int| 0 <= j < 6 ==> #[trigger] corners@[j] == corners_upto(self@, (j + 1) as u32, n as int),
                forall|j: int| 0 <= j < 6 ==> #[trigger] edges@[j] == edges_upto(self@, (j + 1) as u32, n as int),
                forall|j: int| 0 <= j < 6 ==> #[trigger] corners@[j] <= 4 * n,
                forall|j: int| 0 <= j < 6 ==> #[trigger] edges@[j] <= 5 * n,
            decreases 6 - n,
        {
            let (cs, es) = Self::colors_in_face(faces[n]);
            proof {
                assert(self@[n as int] =~= face_view(self.face(n as int)));
                assert forall|j: int| 0 <= j < 6 implies #[trigger] corners@[j] + cs@[j] <= 255 by {
                    assert(corners@[j] <= 4 * n);
                    assert(cs@[j] <= 4);
                }
                assert forall|j: int| 0 <= j < 6 implies #[trigger] edges@[j] + es@[j] <= 255 by {
                    assert(edges@[j] <= 5 * n);
                    assert(cs@[j] <= 4 && es@[j] <= 5);
                }
            }
            corners = add_counts(corners, cs);
            edges = add_counts(edges, es);
            n = n + 1;
            proof {
                assert forall|j: int| 0 <= j < 6 implies #[trigger] corners@[j] == corners_upto(self@, (j + 1) as u32, n as int) by {
                    assert(cs@[j] == face_corners(face_view(faces@[n - 1]), (j + 1) as u32));
                }
                assert forall|j: int| 0 <= j < 6 implies #[trigger] edges@[j] == edges_upto(self@, (j + 1) as u32, n as int) by {
                    assert(es@[j] == face_edges(face_view(faces@[n - 1]), (j + 1) as u32));
                }
            }
        }
        (corners, edges)
    }

    /// The real colors, in code order, of which this state has fewer corner
    /// stickers or fewer edge stickers than `pattern` asks for.
    pub fn missing_colors(&self, pattern: &Cube) -> (r: Vec<Color>)
        ensures
            r@ == missing_upto(self@, pattern@, 6),
    {
        let mut missing: Vec<Color> = Vec::new();
        let colors = [Color::White, Color::Yellow, Color::Green, Color::Blue, Color::Red, Color::Orange];
        let (from_corners, from_edges) = self.colors();
        let (to_corners, to_edges) = pattern.colors();
        let mut n: usize = 0;
        while n < 6
            invariant
                n <= 6,
                colors@ == seq![Color::White, Color::Yellow, Color::Green, Color::Blue, Color::Red, Color::Orange],
                forall|j: int| 0 <= j < 6 ==> #[trigger] from_corners@[j] == corner_count(self@, (j + 1) as u32),
                forall|j: int| 0 <= j < 6 ==> #[trigger] from_edges@[j] == edge_count(self@, (j + 1) as u32),
                forall|j: int| 0 <= j < 6 ==> #[trigger] to_corners@[j] == corner_count(pattern@, (j + 1) as u32),
                forall|j: int| 0 <= j < 6 ==> #[trigger] to_edges@[j] == edge_count(pattern@, (j + 1) as u32),
                missing@ == missing_upto(self@, pattern@, n as int),
            decreases 6 - n,
        {
            let color = colors[n];
            let i = (color.code() - 1) as usize;
            proof {
                assert(i == n);
                assert(color == color_of((n + 1) as u32));
            }
            if from_corners[i] < to_corners[i] || from_edges[i] < to_edges[i] {
                missing.push(color);
            }
            n = n + 1;
            proof {
                assert(missing@ =~= missing_upto(self@, pattern@, n as int));
            }
        }
        missing
    }

    /// Whether the cube matches `other`, a pattern whose wildcard stickers match anything.
    pub fn matches(&self, other: &Cube) -> (r: bool)
        ensures
            r == cube_matches(self@, other@),
    {
        let r = Self::matches_face(self.up, other.up) && Self::matches_face(self.down, other.down)
            && Self::matches_face(self.left, other.left) && Self::matches_face(self.right, other.right)
            && Self::matches_face(self.front, other.front) && Self::matches_face(self.back, other.back);
        proof {
            assert forall|f: int| 0 <= f < 6 implies #[trigger] self@[f] == face_view(self.face(f))
                && other@[f] == face_view(other.face(f)) by {
                assert(self@[f] =~= face_view(self.face(f)));
                assert(other@[f] =~= face_view(other.face(f)));
            }
            assert(self@[0] == face_view(self.up) && other@[0] == face_view(other.up));
            assert(self@[1] == face_view(self.down) && other@[1] == face_view(other.down));
            assert(self@[2] == face_view(self.left) && other@[2] == face_view(other.left));
            assert(self@[3] == face_view(self.right) && other@[3] == face_view(other.right));
            assert(self@[4] == face_view(self.front) && other@[4] == face_view(other.front));
            assert(self@[5] == face_view(self.back) && other@[5] == face_view(other.back));
        }
        r
    }
}

} // verus!
