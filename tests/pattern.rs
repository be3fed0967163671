use cube_search::cube::{Color, Cube, Turn};

fn wildcard() -> Cube<Vec<Color>> {
    Cube {
        up: vec![Color::Grey; 9],
        down: vec![Color::Grey; 9],
        left: vec![Color::Grey; 9],
        right: vec![Color::Grey; 9],
        front: vec![Color::Grey; 9],
        back: vec![Color::Grey; 9],
    }
}

#[test]
fn every_state_matches_all_wildcards() {
    let p = wildcard().pack();
    let s = Cube::solved_state().turn(Turn::R).turn(Turn::U_).turn(Turn::M2);
    assert!(s.matches(&p));
    assert!(Cube::solved_state().matches(&p));
}

#[test]
fn state_matches_itself() {
    let s = Cube::solved_state().turn(Turn::F).turn(Turn::B2).turn(Turn::L_);
    assert!(s.matches(&s));
    assert!(!Cube::solved_state().matches(&s));
    assert!(!s.matches(&Cube::solved_state()));
}

#[test]
fn one_face_pattern() {
    let mut colors = wildcard();
    colors.up = vec![Color::Yellow; 9];
    let p = colors.pack();
    assert!(Cube::solved_state().matches(&p));
    assert!(Cube::solved_state().turn(Turn::U).matches(&p));
    assert!(Cube::solved_state().turn(Turn::D2).matches(&p));
    assert!(!Cube::solved_state().turn(Turn::R).matches(&p));
}

#[test]
fn single_sticker_mismatch() {
    let mut colors = wildcard();
    colors.front[8] = Color::Red;
    let p = colors.pack();
    assert!(!Cube::solved_state().matches(&p));
    colors.front[8] = Color::Green;
    assert!(Cube::solved_state().matches(&colors.pack()));
}

#[test]
fn color_inventory_veto() {
    // ten yellow corners: four on up, four on down, two on left
    let mut colors = wildcard();
    colors.up = vec![Color::Yellow; 9];
    for i in [0, 2, 6, 8] {
        colors.down[i] = Color::Yellow;
    }
    colors.left[0] = Color::Yellow;
    colors.left[2] = Color::Yellow;
    let p = colors.pack();
    assert_eq!(Cube::solved_state().missing_colors(&p), vec![Color::Yellow]);
}

#[test]
fn inventory_counts_edges_apart_from_corners() {
    // ten white edge or center stickers: five on down, five on back
    let mut colors = wildcard();
    for i in [1, 3, 4, 5, 7] {
        colors.down[i] = Color::White;
        colors.back[i] = Color::White;
    }
    colors.front[0] = Color::Red;
    let p = colors.pack();
    assert_eq!(Cube::solved_state().missing_colors(&p), vec![Color::White]);
}

#[test]
fn inventory_lists_colors_in_order() {
    let mut colors = wildcard();
    colors.up = vec![Color::Orange; 9];
    colors.down = vec![Color::Orange; 9];
    colors.left = vec![Color::White; 9];
    colors.right = vec![Color::White; 9];
    let p = colors.pack();
    assert_eq!(Cube::solved_state().missing_colors(&p), vec![Color::White, Color::Orange]);
}

#[test]
fn nothing_missing_for_wildcards_or_itself() {
    let s = Cube::solved_state().turn(Turn::R);
    assert!(s.missing_colors(&wildcard().pack()).is_empty());
    assert!(s.missing_colors(&s).is_empty());
}
