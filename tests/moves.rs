use cube_search::cube::{nth_chunk, Color, Cube, Turn};

const ALL: [Turn; 21] = [
    Turn::U, Turn::U_, Turn::U2, Turn::D, Turn::D_, Turn::D2, Turn::L, Turn::L_, Turn::L2, Turn::R,
    Turn::R_, Turn::R2, Turn::F, Turn::F_, Turn::F2, Turn::B, Turn::B_, Turn::B2, Turn::M, Turn::M_,
    Turn::M2,
];

fn inverse(t: Turn) -> Turn {
    match t {
        Turn::U => Turn::U_,
        Turn::U_ => Turn::U,
        Turn::D => Turn::D_,
        Turn::D_ => Turn::D,
        Turn::L => Turn::L_,
        Turn::L_ => Turn::L,
        Turn::R => Turn::R_,
        Turn::R_ => Turn::R,
        Turn::F => Turn::F_,
        Turn::F_ => Turn::F,
        Turn::B => Turn::B_,
        Turn::B_ => Turn::B,
        Turn::M => Turn::M_,
        Turn::M_ => Turn::M,
        other => other,
    }
}

fn half(t: Turn) -> Turn {
    ALL[(t.code() as usize / 4) * 3 + 2]
}

fn scrambled() -> Cube {
    let mut c = Cube::solved_state();
    for &t in &[Turn::R, Turn::U, Turn::F_, Turn::M, Turn::D2, Turn::B, Turn::L_, Turn::U2] {
        c = c.turn(t);
    }
    c
}

fn stickers(c: &Cube) -> Vec<Color> {
    let mut out = Vec::new();
    for face in [c.up, c.down, c.left, c.right, c.front, c.back] {
        for n in 0..9 {
            out.push(nth_chunk(n, face));
        }
    }
    out
}

#[test]
fn solved_state_faces() {
    let c = Cube::solved_state();
    assert_eq!(nth_chunk(0, c.up), Color::Yellow);
    assert_eq!(nth_chunk(8, c.down), Color::White);
    assert_eq!(nth_chunk(4, c.left), Color::Red);
    assert_eq!(nth_chunk(3, c.right), Color::Orange);
    assert_eq!(nth_chunk(5, c.front), Color::Green);
    assert_eq!(nth_chunk(7, c.back), Color::Blue);
}

#[test]
fn pack_matches_solved_state() {
    let face = |c: Color| vec![c; 9];
    let colors = Cube {
        up: face(Color::Yellow),
        down: face(Color::White),
        left: face(Color::Red),
        right: face(Color::Orange),
        front: face(Color::Green),
        back: face(Color::Blue),
    };
    assert_eq!(colors.pack(), Cube::solved_state());
}

#[test]
fn pack_places_slots_in_order() {
    let up = vec![
        Color::Grey, Color::White, Color::Yellow, Color::Green, Color::Blue, Color::Red, Color::Orange,
        Color::White, Color::Grey,
    ];
    let colors = Cube {
        up: up.clone(),
        down: up.clone(),
        left: up.clone(),
        right: up.clone(),
        front: up.clone(),
        back: up.clone(),
    };
    let c = colors.pack();
    assert_eq!(c.up, 0b000_001_110_101_100_011_010_001_000);
    for (n, &color) in up.iter().enumerate() {
        assert_eq!(nth_chunk(n, c.back), color);
    }
}

#[test]
fn right_turn_moves_front_column_up() {
    let c = Cube::solved_state().turn(Turn::R);
    assert_eq!(nth_chunk(2, c.up), Color::Green);
    assert_eq!(nth_chunk(5, c.up), Color::Green);
    assert_eq!(nth_chunk(8, c.up), Color::Green);
    assert_eq!(nth_chunk(0, c.up), Color::Yellow);
    assert_eq!(nth_chunk(2, c.front), Color::White);
    assert_eq!(nth_chunk(2, c.back), Color::Yellow);
    assert_eq!(nth_chunk(2, c.down), Color::Blue);
    assert_eq!(c.left, Cube::solved_state().left);
}

#[test]
fn up_turn_moves_right_row_to_front() {
    let c = Cube::solved_state().turn(Turn::U);
    assert_eq!(nth_chunk(0, c.front), Color::Orange);
    assert_eq!(nth_chunk(2, c.front), Color::Orange);
    assert_eq!(nth_chunk(3, c.front), Color::Green);
    assert_eq!(nth_chunk(2, c.left), Color::Green);
    assert_eq!(nth_chunk(8, c.back), Color::Red);
    assert_eq!(nth_chunk(0, c.right), Color::Blue);
    assert_eq!(c.down, Cube::solved_state().down);
}

#[test]
fn face_rotation_cycles_slots() {
    let colors = Cube {
        up: vec![
            Color::White, Color::Yellow, Color::Green, Color::Blue, Color::Red, Color::Orange,
            Color::White, Color::Yellow, Color::Green,
        ],
        down: vec![Color::White; 9],
        left: vec![Color::Red; 9],
        right: vec![Color::Orange; 9],
        front: vec![Color::Green; 9],
        back: vec![Color::Blue; 9],
    };
    let c = colors.pack().turn(Turn::U);
    // corners 0 -> 2 -> 8 -> 6, edges 1 -> 5 -> 7 -> 3
    assert_eq!(nth_chunk(2, c.up), Color::White);
    assert_eq!(nth_chunk(0, c.up), Color::White);
    assert_eq!(nth_chunk(5, c.up), Color::Yellow);
    assert_eq!(nth_chunk(8, c.up), Color::Green);
    assert_eq!(nth_chunk(4, c.up), Color::Red);
}

#[test]
fn move_then_inverse_is_identity() {
    let s = scrambled();
    for &m in ALL.iter() {
        assert_eq!(s.turn(m).turn(inverse(m)), s);
        assert_eq!(s.turn(half(m)).turn(half(m)), s);
    }
}

#[test]
fn quarter_twice_is_half() {
    let s = scrambled();
    for &m in ALL.iter().filter(|m| m.code() & 3 != 2) {
        assert_eq!(s.turn(m).turn(m), s.turn(half(m)));
        assert_eq!(s.turn(inverse(m)).turn(inverse(m)), s.turn(half(m)));
    }
}

#[test]
fn four_quarter_turns_are_identity() {
    let s = scrambled();
    for &m in ALL.iter().filter(|m| m.code() & 3 != 2) {
        assert_eq!(s.turn(m).turn(m).turn(m).turn(m), s);
    }
}

#[test]
fn face_turns_keep_centers() {
    let s = scrambled();
    for &m in ALL.iter().filter(|m| m.code() / 4 != 6) {
        let r = s.turn(m);
        for (a, b) in [(r.up, s.up), (r.down, s.down), (r.left, s.left), (r.right, s.right), (r.front, s.front), (r.back, s.back)] {
            assert_eq!(nth_chunk(4, a), nth_chunk(4, b));
        }
    }
}

#[test]
fn middle_slice_carries_centers() {
    let r = Cube::solved_state().turn(Turn::M);
    assert_eq!(nth_chunk(4, r.up), Color::Blue);
    assert_eq!(nth_chunk(4, r.front), Color::Yellow);
    assert_eq!(nth_chunk(4, r.left), Color::Red);
}

#[test]
fn moves_conserve_colors() {
    let solved = Cube::solved_state();
    let mut s = solved;
    for &m in ALL.iter() {
        s = s.turn(m);
        assert!(s.missing_colors(&solved).is_empty());
        assert!(solved.missing_colors(&s).is_empty());
        let count = |c: Color| stickers(&s).iter().filter(|&&x| x == c).count();
        for c in [Color::White, Color::Yellow, Color::Green, Color::Blue, Color::Red, Color::Orange] {
            assert_eq!(count(c), 9);
        }
    }
}

#[test]
fn move_names_and_codes() {
    let names: Vec<&str> = ALL.iter().map(|t| t.name()).collect();
    assert_eq!(
        names.join(" "),
        "U U' U2 D D' D2 L L' L2 R R' R2 F F' F2 B B' B2 M M' M2"
    );
    assert_eq!(Turn::R_.code(), 0b1101);
    assert_eq!(Turn::M2.code() >> 2, 6);
    assert_eq!(Turn::F.code() & 3, 0);
}

#[test]
fn color_symbols_and_codes() {
    let s: String = [Color::Grey, Color::White, Color::Yellow, Color::Green, Color::Blue, Color::Red, Color::Orange]
        .iter()
        .map(|c| c.symbol())
        .collect();
    assert_eq!(s, "_WYGBRO");
    assert_eq!(Color::Grey.code(), 0);
    assert_eq!(Color::Orange.code(), 6);
}
