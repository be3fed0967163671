//! Iterative-deepening search for move sequences that bring a cube to a pattern.
use vstd::prelude::*;
use crate::cube::{turn_view, Cube, Turn};
use crate::pattern::cube_matches;
use rayon::iter::{IntoParallelRefIterator, ParallelIterator};

verus! {

/// What the search reports: the depth it starts on, or a sequence of moves found.
#[derive(Debug, Clone)]
pub enum SearchResult {
    Algorithm(Vec<Turn>),
    Depth(usize),
}

/// A report of the search, with the moves as a sequence.
pub enum Report {
    Algorithm(Seq<Turn>),
    Depth(nat),
}

impl View for SearchResult {
    type V = Report;

    open spec fn view(&self) -> Report {
        match self {
            SearchResult::Algorithm(a) => Report::Algorithm(a@),
            SearchResult::Depth(d) => Report::Depth(*d as nat),
        }
    }
}

/// The class that no move has: no move is barred at the root.
pub open spec fn no_class() -> int {
    7
}

/// The moves of each vector.
pub open spec fn algs(s: Seq<Vec<Turn>>) -> Seq<Seq<Turn>> {
    s.map_values(|a: Vec<Turn>| a@)
}

/// Each sequence of `s` with `h` in front.
pub open spec fn prefix_with(h: Seq<Turn>, s: Seq<Seq<Turn>>) -> Seq<Seq<Turn>> {
    s.map_values(|w: Seq<Turn>| h + w)
}

/// The sequences of exactly `k` moves, taken from `a`, that bring stickers `v` to a
/// state matching `p`, where no move has the class of the move before it and the
/// first is not of class `last`; in depth-first order, moves tried in the order of `a`.
pub open spec fn solutions(v: Seq<Seq<u32>>, last: int, k: nat, p: Seq<Seq<u32>>, a: Seq<Turn>) -> Seq<Seq<Turn>>
    decreases k, a.len() + 1,
{
    if k == 0 {
        if cube_matches(v, p) {
            seq![Seq::empty()]
        } else {
            Seq::empty()
        }
    } else {
        solutions_from(v, last, k, p, a, 0)
    }
}

/// The part of `solutions(v, last, k, p, a)` whose first move is `a[j]` or a later entry of `a`.
pub open spec fn solutions_from(
    v: Seq<Seq<u32>>,
    last: int,
    k: nat,
    p: Seq<Seq<u32>>,
    a: Seq<Turn>,
    j: nat,
) -> Seq<Seq<Turn>>
    decreases k, a.len() - j,
{
    if k == 0 || j >= a.len() {
        Seq::empty()
    } else {
        let t = a[j as int];
        let here = if t.class() != last {
            prefix_with(seq![t], solutions(turn_view(v, t), t.class(), (k - 1) as nat, p, a))
        } else {
            Seq::empty()
        };
        here + solutions_from(v, last, k, p, a, j + 1)
    }
}

proof fn lemma_prefix_add(h: Seq<Turn>, x: Seq<Seq<Turn>>, y: Seq<Seq<Turn>>)
    ensures
        prefix_with(h, x + y) == prefix_with(h, x) + prefix_with(h, y),
{
    assert(prefix_with(h, x + y) =~= prefix_with(h, x) + prefix_with(h, y));
}

proof fn lemma_prefix_prefix(h: Seq<Turn>, t: Turn, s: Seq<Seq<Turn>>)
    ensures
        prefix_with(h, prefix_with(seq![t], s)) == prefix_with(h.push(t), s),
{
    assert forall|i: int| 0 <= i < s.len() implies #[trigger] prefix_with(h, prefix_with(seq![t], s))[i] == prefix_with(h.push(t), s)[i] by {
        assert(h + (seq![t] + s[i]) =~= h.push(t) + s[i]);
    }
    assert(prefix_with(h, prefix_with(seq![t], s)) =~= prefix_with(h.push(t), s));
}

proof fn lemma_class_test_bv(a: u8, b: u8)
    by (bit_vector)
    ensures
        ((a ^ b) > 3) == (a / 4 != b / 4),
{
}

/// Explores below a node at `depth` whose path so far is `history` and whose last move
/// has tag `last_turn`; appends every solution of length `max_depth` below it to `found`.
fn search_helper(
    cube: Cube,
    last_turn: u8,
    depth: usize,
    max_depth: usize,
    pattern: &Cube,
    history: &mut Vec<Turn>,
    allowed_turns: &[Turn],
    found: &mut Vec<Vec<Turn>>,
)
    requires
        depth <= max_depth,
        old(history)@.len() == depth,
    ensures
        final(history)@ == old(history)@,
        algs(final(found)@) == algs(old(found)@) + prefix_with(
            old(history)@,
            solutions(cube@, (last_turn / 4) as int, (max_depth - depth) as nat, pattern@, allowed_turns@),
        ),
    decreases max_depth - depth,
{
    let ghost k = (max_depth - depth) as nat;
    let ghost last: int = (last_turn / 4) as int;
    if depth == max_depth {
        if cube.matches(pattern) {
            let alg = history.clone();
            proof {
                assert(alg@ =~= history@);
            }
            found.push(alg);
            proof {
                assert(prefix_with(history@, seq![Seq::empty()]) =~= seq![history@]);
                assert(algs(found@) =~= algs(old(found)@) + seq![history@]);
            }
        } else {
            proof {
                assert(algs(found@) =~= algs(old(found)@) + prefix_with(history@, Seq::empty()));
            }
        }
        return;
    }
    let mut j: usize = 0;
    while j < allowed_turns.len()
        invariant
            depth < max_depth,
            k == max_depth - depth,
            last == last_turn / 4,
            history@ == old(history)@,
            history@.len() == depth,
            j <= allowed_turns@.len(),
            algs(found@) + prefix_with(history@, solutions_from(cube@, last, k, pattern@, allowed_turns@, j as nat))
                == algs(old(found)@) + prefix_with(history@, solutions(cube@, last, k, pattern@, allowed_turns@)),
        decreases allowed_turns@.len() - j,
    {
        let turn = allowed_turns[j];
        let ghost before = algs(found@);
        let ghost rest = solutions_from(cube@, last, k, pattern@, allowed_turns@, (j + 1) as nat);
        let code = turn.code();
        proof {
            lemma_class_test_bv(code, last_turn);
        }
        if code ^ last_turn > 0b11 {
            history.push(turn);
            let ghost h = history@;
            search_helper(cube.turn(turn), code, depth + 1, max_depth, pattern, history, allowed_turns, found);
            history.pop();
            proof {
                assert(history@ =~= old(history)@);
                let sub = solutions(turn_view(cube@, turn), turn.class(), (k - 1) as nat, pattern@, allowed_turns@);
                assert(code / 4 == turn.class());
                assert(h == old(history)@.push(turn));
                lemma_prefix_prefix(old(history)@, turn, sub);
                lemma_prefix_add(old(history)@, prefix_with(seq![turn], sub), rest);
                assert(algs(found@) =~= before + prefix_with(h, sub));
            }
        } else {
            proof {
                assert(turn.class() == last);
                assert(solutions_from(cube@, last, k, pattern@, allowed_turns@, j as nat) == Seq::<Seq<Turn>>::empty() + rest);
                assert(Seq::<Seq<Turn>>::empty() + rest =~= rest);
            }
        }
        j = j + 1;
    }
    proof {
        assert(solutions_from(cube@, last, k, pattern@, allowed_turns@, j as nat) == Seq::<Seq<Turn>>::empty());
        assert(prefix_with(history@, Seq::<Seq<Turn>>::empty()) =~= Seq::<Seq<Turn>>::empty());
        assert(algs(found@) + Seq::<Seq<Turn>>::empty() =~= algs(found@));
    }
}


/// What one worker finds: the solutions of length `max_depth` that start with `first`.
pub open spec fn root_solutions(v: Seq<Seq<u32>>, first: Turn, max_depth: nat, p: Seq<Seq<u32>>, a: Seq<Turn>) -> Seq<Seq<Turn>> {
    prefix_with(seq![first], solutions(turn_view(v, first), first.class(), (max_depth - 1) as nat, p, a))
}

/// Every solution of length `max_depth` that starts with the move `first`, in
/// depth-first order.
pub fn search_root(cube: Cube, first: Turn, max_depth: usize, pattern: &Cube, allowed_turns: &[Turn]) -> (r: Vec<Vec<Turn>>)
    requires
        max_depth >= 1,
    ensures
        algs(r@) == root_solutions(cube@, first, max_depth as nat, pattern@, allowed_turns@),
{
    let mut history: Vec<Turn> = Vec::new();
    history.push(first);
    let mut found: Vec<Vec<Turn>> = Vec::new();
    let code = first.code();
    search_helper(cube.turn(first), code, 1, max_depth, pattern, &mut history, allowed_turns, &mut found);
    proof {
        assert(history@ =~= seq![first]);
        assert(code / 4 == first.class());
        assert(algs(Seq::<Vec<Turn>>::empty()) =~= Seq::<Seq<Turn>>::empty());
        assert(Seq::<Seq<Turn>>::empty() + root_solutions(cube@, first, max_depth as nat, pattern@, allowed_turns@)
            =~= root_solutions(cube@, first, max_depth as nat, pattern@, allowed_turns@));
    }
    found
}

/// Relies on rayon's `par_iter().map(..).collect()` over a slice into a `Vec`: one
/// result per item, the i-th being the closure's value on the i-th item.
#[verifier::external_body]
fn par_search_roots(cube: Cube, pattern: &Cube, allowed_turns: &[Turn], max_depth: usize) -> (r: Vec<Vec<Vec<Turn>>>)
    requires
        max_depth >= 1,
    ensures
        r@.len() == allowed_turns@.len(),
        forall|i: int|
            0 <= i < r@.len() ==> algs(#[trigger] r@[i]@) == root_solutions(
                cube@,
                allowed_turns@[i],
                max_depth as nat,
                pattern@,
                allowed_turns@,
            ),
{
    allowed_turns.par_iter().map(|&t| search_root(cube, t, max_depth, pattern, allowed_turns)).collect()
}

/// Every solution of exactly `max_depth` moves, found by one worker per allowed first move.
pub fn search_depth(cube: Cube, pattern: &Cube, allowed_turns: &[Turn], max_depth: usize) -> (r: Vec<Vec<Turn>>)
    requires
        max_depth >= 1,
    ensures
        algs(r@) == solutions(cube@, no_class(), max_depth as nat, pattern@, allowed_turns@),
{
    let roots = par_search_roots(cube, pattern, allowed_turns, max_depth);
    let ghost v = cube@;
    let ghost d = max_depth as nat;
    let ghost a = allowed_turns@;
    let mut out: Vec<Vec<Turn>> = Vec::new();
    let mut j: usize = 0;
    proof {
        assert(algs(out@) =~= Seq::<Seq<Turn>>::empty());
        assert(Seq::<Seq<Turn>>::empty() + solutions_from(v, no_class(), d, pattern@, a, 0) =~= solutions(v, no_class(), d, pattern@, a));
    }
    while j < roots.len()
        invariant
            roots@.len() == a.len(),
            a == allowed_turns@,
            v == cube@,
            d == max_depth as nat,
            d >= 1,
            j <= roots@.len(),
            forall|i: int| 0 <= i < roots@.len() ==> algs(#[trigger] roots@[i]@) == root_solutions(v, a[i], d, pattern@, a),
            algs(out@) + solutions_from(v, no_class(), d, pattern@, a, j as nat) == solutions(v, no_class(), d, pattern@, a),
        decreases roots@.len() - j,
    {
        let ghost start = algs(out@);
        let ghost part = algs(roots@[j as int]@);
        let mut i: usize = 0;
        while i < roots[j].len()
            invariant
                j < roots@.len(),
                i <= roots@[j as int]@.len(),
                part == algs(roots@[j as int]@),
                algs(out@) == start + part.take(i as int),
            decreases roots@[j as int]@.len() - i,
        {
            let alg = roots[j][i].clone();
            let ghost prev = out@;
            proof {
                assert(alg@ =~= roots@[j as int]@[i as int]@);
                assert(part[i as int] == alg@);
            }
            out.push(alg);
            proof {
                assert(out@ == prev.push(alg));
                assert(algs(out@) =~= algs(prev).push(alg@));
                assert(part.take(i + 1) =~= part.take(i as int).push(part[i as int]));
            }
            i = i + 1;
            proof {
                assert(algs(out@) =~= start + part.take(i as int));
            }
        }
        proof {
            assert(part.take(i as int) =~= part);
            let t = a[j as int];
            assert(t.class() != no_class());
            let rest = solutions_from(v, no_class(), d, pattern@, a, (j + 1) as nat);
            assert(solutions_from(v, no_class(), d, pattern@, a, j as nat) == part + rest);
            assert(start + (part + rest) =~= (start + part) + rest);
        }
        j = j + 1;
    }
    proof {
        assert(algs(out@) + Seq::<Seq<Turn>>::empty() =~= algs(out@));
    }
    out
}

/// The reports for depths 1 through `n`: each depth is announced, then its solutions follow.
pub open spec fn reports(v: Seq<Seq<u32>>, p: Seq<Seq<u32>>, a: Seq<Turn>, n: nat) -> Seq<Report>
    decreases n,
{
    if n == 0 {
        Seq::empty()
    } else {
        reports(v, p, a, (n - 1) as nat) + seq![Report::Depth(n)] + solutions(v, no_class(), n, p, a).map_values(
            |w: Seq<Turn>| Report::Algorithm(w),
        )
    }
}

/// The search's report stream up to depth `max_depth`: `Depth(d)` for d = 1, 2, ...,
/// each followed by every solution of exactly d moves.
pub fn search(cube: Cube, pattern: &Cube, allowed_turns: &[Turn], max_depth: usize) -> (r: Vec<SearchResult>)
    ensures
        r@.map_values(|x: SearchResult| x@) == reports(cube@, pattern@, allowed_turns@, max_depth as nat),
{
    let mut out: Vec<SearchResult> = Vec::new();
    let mut d: usize = 0;
    proof {
        assert(out@.map_values(|x: SearchResult| x@) =~= reports(cube@, pattern@, allowed_turns@, 0));
    }
    while d < max_depth
        invariant
            d <= max_depth,
            out@.map_values(|x: SearchResult| x@) == reports(cube@, pattern@, allowed_turns@, d as nat),
        decreases max_depth - d,
    {
        d = d + 1;
        out.push(SearchResult::Depth(d));
        let ghost start = out@.map_values(|x: SearchResult| x@);
        proof {
            assert(start =~= reports(cube@, pattern@, allowed_turns@, (d - 1) as nat) + seq![Report::Depth(d as nat)]);
        }
        let found = search_depth(cube, pattern, allowed_turns, d);
        let ghost tail = algs(found@).map_values(|w: Seq<Turn>| Report::Algorithm(w));
        let mut i: usize = 0;
        while i < found.len()
            invariant
                i <= found@.len(),
                tail == algs(found@).map_values(|w: Seq<Turn>| Report::Algorithm(w)),
                out@.map_values(|x: SearchResult| x@) == start + tail.take(i as int),
            decreases found@.len() - i,
        {
            let alg = found[i].clone();
            let ghost prev = out@;
            proof {
                assert(alg@ =~= found@[i as int]@);
                assert(tail[i as int] == Report::Algorithm(alg@));
            }
            let item = SearchResult::Algorithm(alg);
            out.push(item);
            proof {
                assert(out@ == prev.push(item));
                assert(out@.map_values(|x: SearchResult| x@) =~= prev.map_values(|x: SearchResult| x@).push(item@));
                assert(tail.take(i + 1) =~= tail.take(i as int).push(tail[i as int]));
            }
            i = i + 1;
            proof {
                assert(out@.map_values(|x: SearchResult| x@) =~= start + tail.take(i as int));
            }
        }
        proof {
            assert(tail.take(i as int) =~= tail);
        }
    }
    out
}


proof fn lemma_solutions_len(v: Seq<Seq<u32>>, last: int, k: nat, p: Seq<Seq<u32>>, a: Seq<Turn>)
    ensures
        forall|i: int| 0 <= i < solutions(v, last, k, p, a).len() ==> (#[trigger] solutions(v, last, k, p, a)[i]).len() == k,
{
    assert forall|i: int| 0 <= i < solutions(v, last, k, p, a).len() implies (#[trigger] solutions(v, last, k, p, a)[i]).len() == k by {
        let w = solutions(v, last, k, p, a)[i];
        assert(solutions(v, last, k, p, a).contains(w));
        lemma_solutions_exact(v, last, k, p, a, w);
    }
}

/// In the report stream every algorithm comes after the depth marker of its own length,
/// so no algorithm is longer than the deepest marker before it.
pub proof fn lemma_depth_ordering(v: Seq<Seq<u32>>, p: Seq<Seq<u32>>, a: Seq<Turn>, n: nat, i: int)
    requires
        0 <= i < reports(v, p, a, n).len(),
        reports(v, p, a, n)[i] is Algorithm,
    ensures
        exists|j: int| 0 <= j < i && reports(v, p, a, n)[j] == Report::Depth((reports(v, p, a, n)[i]->Algorithm_0).len()),
    decreases n,
{
    let prev = reports(v, p, a, (n - 1) as nat);
    let sols = solutions(v, no_class(), n, p, a);
    let all = reports(v, p, a, n);
    assert(all == prev + seq![Report::Depth(n)] + sols.map_values(|w: Seq<Turn>| Report::Algorithm(w)));
    if i < prev.len() {
        lemma_depth_ordering(v, p, a, (n - 1) as nat, i);
        let j = choose|j: int| 0 <= j < i && prev[j] == Report::Depth((prev[i]->Algorithm_0).len());
        assert(all[j] == prev[j] && all[i] == prev[i]);
    } else {
        let j = prev.len() as int;
        assert(all[j] == Report::Depth(n));
        assert(i != j);
        lemma_solutions_len(v, no_class(), n, p, a);
        assert(all[i] == Report::Algorithm(sols[i - j - 1]));
    }
}

/// `w` is a sequence of moves of `a` that brings stickers `v` to a match of `p`,
/// where no move has the class of the move before it and the first is not of class `last`.
pub open spec fn legal_solution(v: Seq<Seq<u32>>, last: int, w: Seq<Turn>, p: Seq<Seq<u32>>, a: Seq<Turn>) -> bool
    decreases w.len(),
{
    if w.len() == 0 {
        cube_matches(v, p)
    } else {
        &&& a.contains(w[0])
        &&& w[0].class() != last
        &&& legal_solution(turn_view(v, w[0]), w[0].class(), w.drop_first(), p, a)
    }
}

proof fn lemma_concat_contains(x: Seq<Seq<Turn>>, y: Seq<Seq<Turn>>, w: Seq<Turn>)
    ensures
        (x + y).contains(w) <==> x.contains(w) || y.contains(w),
{
    if x.contains(w) {
        let i = choose|i: int| 0 <= i < x.len() && x[i] == w;
        assert((x + y)[i] == w);
    }
    if y.contains(w) {
        let i = choose|i: int| 0 <= i < y.len() && y[i] == w;
        assert((x + y)[x.len() + i] == w);
    }
    if (x + y).contains(w) {
        let i = choose|i: int| 0 <= i < (x + y).len() && (x + y)[i] == w;
        if i < x.len() {
            assert(x[i] == w);
        } else {
            assert(y[i - x.len()] == w);
        }
    }
}

proof fn lemma_prefix_contains(t: Turn, s: Seq<Seq<Turn>>, w: Seq<Turn>)
    ensures
        prefix_with(seq![t], s).contains(w) <==> (w.len() > 0 && w[0] == t && s.contains(w.drop_first())),
{
    let ps = prefix_with(seq![t], s);
    if ps.contains(w) {
        let i = choose|i: int| 0 <= i < ps.len() && ps[i] == w;
        assert(w == seq![t] + s[i]);
        assert(w.drop_first() =~= s[i]);
    }
    if w.len() > 0 && w[0] == t && s.contains(w.drop_first()) {
        let i = choose|i: int| 0 <= i < s.len() && s[i] == w.drop_first();
        assert(ps[i] =~= w);
    }
}

/// The depth-first order lists exactly the legal solutions: a sequence of `k` moves
/// is found if and only if it is legal. So no found sequence has two moves of one
/// class in a row, and pruning loses no legal sequence.
pub proof fn lemma_solutions_exact(v: Seq<Seq<u32>>, last: int, k: nat, p: Seq<Seq<u32>>, a: Seq<Turn>, w: Seq<Turn>)
    ensures
        solutions(v, last, k, p, a).contains(w) <==> (w.len() == k && legal_solution(v, last, w, p, a)),
    decreases k, a.len() + 1,
{
    if k == 0 {
        if w.len() == 0 {
            assert(w =~= Seq::<Turn>::empty());
            if cube_matches(v, p) {
                assert(solutions(v, last, k, p, a)[0] == w);
            }
        }
    } else {
        lemma_solutions_from_exact(v, last, k, p, a, 0, w);
        if w.len() > 0 {
            if a.contains(w[0]) {
                let jj = choose|jj: int| 0 <= jj < a.len() && a[jj] == w[0];
                assert(0 <= jj < a.len() && a[jj] == w[0]);
            }
        }
    }
}

proof fn lemma_solutions_from_exact(
    v: Seq<Seq<u32>>,
    last: int,
    k: nat,
    p: Seq<Seq<u32>>,
    a: Seq<Turn>,
    j: nat,
    w: Seq<Turn>,
)
    requires
        k > 0,
    ensures
        solutions_from(v, last, k, p, a, j).contains(w) <==> (w.len() == k && (exists|jj: int| j <= jj < a.len() && a[jj] == w[0])
            && w[0].class() != last && legal_solution(turn_view(v, w[0]), w[0].class(), w.drop_first(), p, a)),
    decreases k, a.len() - j,
{
    if j < a.len() {
        let t = a[j as int];
        let sub = solutions(turn_view(v, t), t.class(), (k - 1) as nat, p, a);
        let here = if t.class() != last { prefix_with(seq![t], sub) } else { Seq::empty() };
        let rest = solutions_from(v, last, k, p, a, j + 1);
        lemma_solutions_from_exact(v, last, k, p, a, j + 1, w);
        lemma_concat_contains(here, rest, w);
        lemma_prefix_contains(t, sub, w);
        if w.len() > 0 {
            lemma_solutions_exact(turn_view(v, t), t.class(), (k - 1) as nat, p, a, w.drop_first());
        }
        if (w.len() == k && (exists|jj: int| j <= jj < a.len() && a[jj] == w[0])) {
            let jj = choose|jj: int| j <= jj < a.len() && a[jj] == w[0];
            if jj > j {
                assert(j + 1 <= jj < a.len() && a[jj] == w[0]);
            }
        }
        if w.len() > 0 && w[0] == t {
            assert(j <= j < a.len() && a[j as int] == w[0]);
        }
        if rest.contains(w) {
            let jj = choose|jj: int| j + 1 <= jj < a.len() && a[jj] == w[0];
            assert(j <= jj < a.len() && a[jj] == w[0]);
        }
    }
}

} // verus!
