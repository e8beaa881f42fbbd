use tetrs::piece::{Movement, Piece, PieceType, Rotation};
use tetrs::tile::Block;

fn occ(p: &Piece, i: usize, j: usize) -> bool {
    p.layout()[i][j].is_some()
}

fn cells(p: &Piece) -> Vec<(usize, usize)> {
    let mut v = Vec::new();
    for i in 0..4 {
        for j in 0..4 {
            if occ(p, i, j) {
                v.push((i, j));
            }
        }
    }
    v
}

#[test]
fn canonical_layouts() {
    let i = Piece::new(PieceType::I);
    assert_eq!(cells(&i), vec![(1, 0), (1, 1), (1, 2), (1, 3)]);
    assert_eq!(i.layout()[1][0], Some(Block::Cyan));

    let o = Piece::new(PieceType::O);
    assert_eq!(cells(&o), vec![(1, 1), (1, 2), (2, 1), (2, 2)]);
    assert_eq!(o.layout()[1][1], Some(Block::Yellow));

    let j = Piece::new(PieceType::J);
    assert_eq!(cells(&j), vec![(0, 0), (1, 0), (1, 1), (1, 2)]);
    assert_eq!(j.layout()[0][0], Some(Block::Blue));

    let l = Piece::new(PieceType::L);
    assert_eq!(cells(&l), vec![(0, 2), (1, 0), (1, 1), (1, 2)]);
    assert_eq!(l.layout()[0][2], Some(Block::Orange));

    let s = Piece::new(PieceType::S);
    assert_eq!(cells(&s), vec![(0, 1), (0, 2), (1, 0), (1, 1)]);
    assert_eq!(s.layout()[0][1], Some(Block::Green));

    let z = Piece::new(PieceType::Z);
    assert_eq!(cells(&z), vec![(0, 0), (0, 1), (1, 1), (1, 2)]);
    assert_eq!(z.layout()[0][0], Some(Block::Red));

    let t = Piece::new(PieceType::T);
    assert_eq!(cells(&t), vec![(0, 1), (1, 0), (1, 1), (1, 2)]);
    assert_eq!(t.layout()[0][1], Some(Block::Magenta));
}

#[test]
fn colored_blocks_and_rot_diameters() {
    assert_eq!(PieceType::I.get_colored_block(), Block::Cyan);
    assert_eq!(PieceType::O.get_colored_block(), Block::Yellow);
    assert_eq!(PieceType::J.get_colored_block(), Block::Blue);
    assert_eq!(PieceType::L.get_colored_block(), Block::Orange);
    assert_eq!(PieceType::S.get_colored_block(), Block::Green);
    assert_eq!(PieceType::Z.get_colored_block(), Block::Red);
    assert_eq!(PieceType::T.get_colored_block(), Block::Magenta);
    assert_eq!(PieceType::I.get_rot_diameter(), 4);
    assert_eq!(PieceType::O.get_rot_diameter(), 4);
    assert_eq!(PieceType::J.get_rot_diameter(), 3);
    assert_eq!(PieceType::T.get_rot_diameter(), 3);
}

#[test]
fn rotate_right_once_turns_i_into_a_column() {
    let mut p = Piece::new(PieceType::I);
    p.rotate_right();
    assert_eq!(cells(&p), vec![(0, 2), (1, 2), (2, 2), (3, 2)]);
}

#[test]
fn four_turns_restore_every_shape() {
    for t in [
        PieceType::I,
        PieceType::O,
        PieceType::J,
        PieceType::L,
        PieceType::S,
        PieceType::Z,
        PieceType::T,
    ] {
        let orig = Piece::new(t);
        let mut p = orig;
        for _ in 0..4 {
            p.rotate_left();
        }
        assert_eq!(p.layout(), orig.layout());
        let mut q = orig;
        for _ in 0..4 {
            q.rotate(Rotation::Right);
        }
        assert_eq!(q.layout(), orig.layout());
    }
}

#[test]
fn three_turns_do_not_restore_s() {
    let orig = Piece::new(PieceType::S);
    let mut p = orig;
    for _ in 0..3 {
        p.rotate_left();
    }
    assert_ne!(p.layout(), orig.layout());
}

#[test]
fn movement_changes_the_anchor() {
    let mut p = Piece::new(PieceType::T).at(4, 5);
    assert_eq!(p.coord(), (4, 5));
    p.move_left();
    assert_eq!(p.coord(), (3, 5));
    p.move_right();
    p.move_right();
    assert_eq!(p.coord(), (5, 5));
    p.move_down();
    assert_eq!(p.coord(), (5, 6));
    p.move_by(-2, 3);
    assert_eq!(p.coord(), (3, 9));
    p.set_at(0, 0);
    assert_eq!(p.coord(), (0, 0));
    p.apply_movement(Movement::Down);
    assert_eq!(p.coord(), (0, 1));
}

#[test]
fn out_of_bounds_checks_columns_and_floor_only() {
    assert!(!Piece::new(PieceType::I).at(0, 0).is_out_of_bounds());
    assert!(Piece::new(PieceType::I).at(-1, 0).is_out_of_bounds());
    assert!(Piece::new(PieceType::I).at(7, 0).is_out_of_bounds());
    assert!(!Piece::new(PieceType::I).at(6, 0).is_out_of_bounds());
    assert!(!Piece::new(PieceType::I).at(0, 18).is_out_of_bounds());
    assert!(Piece::new(PieceType::I).at(0, 19).is_out_of_bounds());
    // rows above the field are allowed
    assert!(!Piece::new(PieceType::I).at(0, -1).is_out_of_bounds());
}

#[test]
fn random_pieces_are_fresh_canonical_pieces() {
    for _ in 0..20 {
        let p = Piece::random_new();
        assert_eq!(p.coord(), (0, 0));
        let canonical = Piece::new(p.piece_type());
        assert_eq!(p.layout(), canonical.layout());
    }
}
