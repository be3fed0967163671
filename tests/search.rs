use cube_search::cube::{Color, Cube, Turn};
use cube_search::search::{search, search_depth, search_root, SearchResult};

const ALL: [Turn; 21] = [
    Turn::U, Turn::U_, Turn::U2, Turn::D, Turn::D_, Turn::D2, Turn::L, Turn::L_, Turn::L2, Turn::R,
    Turn::R_, Turn::R2, Turn::F, Turn::F_, Turn::F2, Turn::B, Turn::B_, Turn::B2, Turn::M, Turn::M_,
    Turn::M2,
];

fn algorithms(results: &[SearchResult]) -> Vec<Vec<Turn>> {
    results
        .iter()
        .filter_map(|r| match r {
            SearchResult::Algorithm(a) => Some(a.clone()),
            SearchResult::Depth(_) => None,
        })
        .collect()
}

fn apply(c: Cube, alg: &[Turn]) -> Cube {
    alg.iter().fold(c, |c, &t| c.turn(t))
}

#[test]
fn trivial_match() {
    let solved = Cube::solved_state();
    let r = search(solved, &solved, &ALL, 1);
    assert!(matches!(r[0], SearchResult::Depth(1)));
    assert_eq!(r.len(), 1);
}

#[test]
fn single_move_solve() {
    let solved = Cube::solved_state();
    let start = solved.turn(Turn::R);
    let r = search(start, &solved, &ALL, 1);
    assert_eq!(r.len(), 2);
    assert!(matches!(r[0], SearchResult::Depth(1)));
    assert_eq!(algorithms(&r), vec![vec![Turn::R_]]);
}

#[test]
fn two_move_solve_with_class_pruning() {
    let solved = Cube::solved_state();
    let start = solved.turn(Turn::R).turn(Turn::U);
    let r = search(start, &solved, &ALL, 3);
    let algs = algorithms(&r);
    assert!(algs.contains(&vec![Turn::U_, Turn::R_]));
    assert!(!algs.contains(&vec![Turn::U, Turn::U_, Turn::R_]));
    assert!(algs.iter().all(|a| a.len() != 1));
    for a in &algs {
        assert!(apply(start, a).matches(&solved));
        for w in a.windows(2) {
            assert_ne!(w[0].code() >> 2, w[1].code() >> 2);
        }
    }
}

#[test]
fn wildcard_pattern_one_face() {
    let solved = Cube::solved_state();
    let grey = vec![Color::Grey; 9];
    let pattern = Cube {
        up: vec![Color::Yellow; 9],
        down: grey.clone(),
        left: grey.clone(),
        right: grey.clone(),
        front: grey.clone(),
        back: grey,
    }
    .pack();
    assert!(solved.matches(&pattern));
    let r = search(solved, &pattern, &ALL, 1);
    assert!(matches!(r[0], SearchResult::Depth(1)));
    let algs = algorithms(&r);
    assert_eq!(
        algs,
        vec![vec![Turn::U], vec![Turn::U_], vec![Turn::U2], vec![Turn::D], vec![Turn::D_], vec![Turn::D2]]
    );
}

#[test]
fn impossible_with_restricted_moves() {
    let solved = Cube::solved_state();
    let start = solved.turn(Turn::F);
    let r = search(start, &solved, &[Turn::U, Turn::U_, Turn::U2], 5);
    assert_eq!(r.len(), 5);
    for (i, item) in r.iter().enumerate() {
        match item {
            SearchResult::Depth(d) => assert_eq!(*d, i + 1),
            SearchResult::Algorithm(_) => panic!("no algorithm expected"),
        }
    }
}

#[test]
fn depth_markers_precede_solutions() {
    let solved = Cube::solved_state();
    let start = solved.turn(Turn::L).turn(Turn::F2);
    let r = search(start, &solved, &ALL, 3);
    let mut depth = 0;
    for item in &r {
        match item {
            SearchResult::Depth(d) => {
                assert_eq!(*d, depth + 1);
                depth = *d;
            }
            SearchResult::Algorithm(a) => assert_eq!(a.len(), depth),
        }
    }
    assert_eq!(depth, 3);
    assert!(algorithms(&r).contains(&vec![Turn::F2, Turn::L_]));
}

#[test]
fn roots_split_the_depth() {
    let solved = Cube::solved_state();
    let start = solved.turn(Turn::R).turn(Turn::U);
    let whole = search_depth(start, &solved, &ALL, 2);
    let mut joined = Vec::new();
    for &t in ALL.iter() {
        joined.extend(search_root(start, t, 2, &solved, &ALL));
    }
    assert_eq!(whole, joined);
    assert_eq!(search_root(start, Turn::U_, 2, &solved, &ALL), vec![vec![Turn::U_, Turn::R_]]);
    assert!(search_root(start, Turn::R, 2, &solved, &ALL).is_empty());
}

#[test]
fn allowed_order_sets_solution_order() {
    let solved = Cube::solved_state();
    let start = solved.turn(Turn::U2);
    let r = search_depth(start, &solved, &[Turn::D, Turn::U2, Turn::U], 1);
    assert_eq!(r, vec![vec![Turn::U2]]);
    let two = search_depth(start, &solved, &[Turn::U, Turn::D, Turn::U2], 2);
    assert!(two.is_empty());
}
