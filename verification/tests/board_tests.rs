use tetrs::board::{Board, BoardSettings, TickState};
use tetrs::piece::{Movement, Piece, PieceType};
use tetrs::tile::Block;

fn settings(level: u8) -> BoardSettings {
    BoardSettings { starting_level: level, ghost_piece_on: true, high_score: 0 }
}

fn grid_population(board: &Board) -> usize {
    let mut n = 0;
    for y in 0..20 {
        for x in 0..10 {
            if board.tile(y, x).is_some() {
                n += 1;
            }
        }
    }
    n
}

/// Fills row `y` except for the listed columns.
fn fill_row_except(board: &mut Board, y: usize, gaps: &[usize]) {
    for x in 0..10 {
        if !gaps.contains(&x) {
            board.set_tile(y, x, Some(Block::White));
        }
    }
}

#[test]
fn new_board_starts_empty() {
    let board = Board::new(settings(1), 0);
    assert_eq!(grid_population(&board), 0);
    assert_eq!(board.score(), 0);
    assert_eq!(board.lines(), 0);
    assert_eq!(board.level(), 1);
    assert!(!board.is_lost());
    assert!(board.can_hold());
    assert!(board.held_piece().is_none());
    assert_eq!(board.current_piece().coord(), (4, -1));
    assert_eq!(board.next_piece().coord(), (4, -1));
    let s = board.get_settings();
    assert_eq!(s.starting_level, 1);
    assert!(s.ghost_piece_on);
    assert_eq!(s.high_score, 0);
}

#[test]
fn tick_interval_table_boundaries() {
    assert_eq!(Board::new(settings(0), 0).tick_millis(), 800);
    assert_eq!(Board::new(settings(1), 0).tick_millis(), 717);
    assert_eq!(Board::new(settings(9), 0).tick_millis(), 100);
    assert_eq!(Board::new(settings(10), 0).tick_millis(), 98);
    assert_eq!(Board::new(settings(28), 0).tick_millis(), 48);
    assert_eq!(Board::new(settings(29), 0).tick_millis(), 17);
}

#[test]
fn single_line_clear_scores_101_at_level_1() {
    let mut board = Board::new(settings(1), 0);
    // an I piece resting on the floor over columns 6..10
    board.set_current_piece(Piece::new(PieceType::I).at(6, 18));
    fill_row_except(&mut board, 19, &[6, 7, 8, 9]);
    let lost = board.consume_piece();
    assert!(!lost);
    assert_eq!(board.score(), 101);
    assert_eq!(board.lines(), 1);
    assert_eq!(board.level(), 1);
    assert_eq!(grid_population(&board), 0);
    assert!(board.can_hold());
}

#[test]
fn line_bonus_is_scaled_by_the_level_at_lock_time() {
    let mut board = Board::new(settings(5), 0);
    board.set_current_piece(Piece::new(PieceType::I).at(6, 18));
    fill_row_except(&mut board, 19, &[6, 7, 8, 9]);
    board.consume_piece();
    assert_eq!(board.score(), 1 + 100 * 5);
}

#[test]
fn double_line_clear_scores_301_at_level_1() {
    let mut board = Board::new(settings(1), 0);
    // an O piece resting on the floor over columns 5 and 6
    board.set_current_piece(Piece::new(PieceType::O).at(4, 17));
    fill_row_except(&mut board, 18, &[5, 6]);
    fill_row_except(&mut board, 19, &[5, 6]);
    let lost = board.consume_piece();
    assert!(!lost);
    assert_eq!(board.score(), 1 + 300);
    assert_eq!(board.lines(), 2);
    assert_eq!(grid_population(&board), 0);
}

#[test]
fn clearing_shifts_rows_above_down() {
    let mut board = Board::new(settings(1), 0);
    board.set_current_piece(Piece::new(PieceType::I).at(6, 18));
    fill_row_except(&mut board, 19, &[6, 7, 8, 9]);
    // a marker above the full row, and one two rows up
    board.set_tile(18, 0, Some(Block::Blue));
    board.set_tile(17, 3, Some(Block::Green));
    board.consume_piece();
    // the full bottom row went away; everything above moved down one
    assert_eq!(board.tile(19, 0), Some(Block::Blue));
    assert_eq!(board.tile(18, 3), Some(Block::Green));
    assert_eq!(board.tile(18, 0), None);
    assert_eq!(board.tile(17, 3), None);
    assert_eq!(board.tile(0, 0), None);
    assert_eq!(grid_population(&board), 2);
}

#[test]
fn locking_without_a_clear_earns_the_pity_point() {
    let mut board = Board::new(settings(1), 0);
    board.set_current_piece(Piece::new(PieceType::T).at(0, 17));
    let lost = board.consume_piece();
    assert!(!lost);
    assert_eq!(board.score(), 1);
    assert_eq!(board.lines(), 0);
    assert_eq!(grid_population(&board), 4);
    // the T came to rest on the floor
    assert_eq!(board.tile(17, 1), Some(Block::Magenta));
    assert_eq!(board.tile(18, 0), Some(Block::Magenta));
    assert_eq!(board.tile(18, 1), Some(Block::Magenta));
    assert_eq!(board.tile(18, 2), Some(Block::Magenta));
}

#[test]
fn locking_above_the_field_loses_and_writes_nothing() {
    let mut board = Board::new(settings(1), 0);
    // a T at the spawn anchor still has its top block at row -1
    board.set_current_piece(Piece::new(PieceType::T).at(4, -1));
    let next_before = board.next_piece();
    let lost = board.consume_piece();
    assert!(lost);
    assert!(board.is_lost());
    assert_eq!(grid_population(&board), 0);
    assert_eq!(board.score(), 0);
    assert_eq!(board.lines(), 0);
    // nothing advanced: the same piece is still current and next
    assert_eq!(board.current_piece().piece_type(), PieceType::T);
    assert_eq!(board.next_piece().piece_type(), next_before.piece_type());
}

#[test]
fn gravity_waits_for_the_tick_interval() {
    let mut board = Board::new(settings(1), 1000);
    let y0 = board.current_piece().coord().1;
    // level 1 ticks every 717 ms
    assert_eq!(board.check_to_tick_down_piece(1000 + 716), TickState::NotTicked);
    assert_eq!(board.current_piece().coord().1, y0);
    assert_eq!(board.check_to_tick_down_piece(1000 + 717), TickState::Ticked);
    assert_eq!(board.current_piece().coord().1, y0 + 1);
    // the next tick is timed from the committed one
    assert_eq!(board.check_to_tick_down_piece(1000 + 717 + 716), TickState::NotTicked);
    assert_eq!(board.check_to_tick_down_piece(1000 + 717 + 717), TickState::Ticked);
    assert_eq!(board.current_piece().coord().1, y0 + 2);
}

#[test]
fn a_tick_locks_a_piece_that_cannot_fall() {
    let mut board = Board::new(settings(1), 0);
    board.set_current_piece(Piece::new(PieceType::O).at(4, 17));
    assert_eq!(board.check_to_tick_down_piece(1000), TickState::Ticked);
    assert_eq!(board.score(), 1);
    assert_eq!(grid_population(&board), 4);
}

#[test]
fn movement_is_committed_only_when_valid() {
    let mut board = Board::new(settings(1), 0);
    board.set_current_piece(Piece::new(PieceType::I).at(0, 10));
    // the I occupies columns 0..4, so a move left must be rejected
    assert!(!board.try_current_piece_movement(Movement::Left));
    assert_eq!(board.current_piece().coord(), (0, 10));
    assert!(board.try_current_piece_movement(Movement::Right));
    assert_eq!(board.current_piece().coord(), (1, 10));
    assert!(board.try_current_piece_movement(Movement::Down));
    assert_eq!(board.current_piece().coord(), (1, 11));
}

#[test]
fn rotation_against_the_floor_is_rejected() {
    let mut board = Board::new(settings(1), 0);
    // an I lying on the floor cannot stand up: rows 17..21 would be needed
    board.set_current_piece(Piece::new(PieceType::I).at(3, 17));
    let before = *board.current_piece().layout();
    assert!(!board.try_current_piece_movement(Movement::RotateRight));
    assert_eq!(*board.current_piece().layout(), before);
    assert_eq!(board.current_piece().coord(), (3, 17));
}

#[test]
fn blocked_cells_reject_a_move() {
    let mut board = Board::new(settings(1), 0);
    board.set_current_piece(Piece::new(PieceType::O).at(4, 10));
    // the O occupies columns 5,6 at rows 11,12; block column 7 at row 11
    board.set_tile(11, 7, Some(Block::Red));
    assert!(!board.try_current_piece_movement(Movement::Right));
    assert_eq!(board.current_piece().coord(), (4, 10));
    assert!(board.try_current_piece_movement(Movement::Left));
}

#[test]
fn ghost_piece_drops_without_touching_the_board() {
    let mut board = Board::new(settings(1), 0);
    board.set_current_piece(Piece::new(PieceType::O).at(4, -1));
    board.set_tile(19, 5, Some(Block::Red));
    let mut ghost = board.current_piece();
    while board.try_piece_movement(&mut ghost, Movement::Down) {}
    // the O's lowest blocks sit in layout row 2; resting on the block at
    // row 19 means anchor row 16
    assert_eq!(ghost.coord(), (4, 16));
    assert_eq!(board.current_piece().coord(), (4, -1));
    assert_eq!(grid_population(&board), 1);
}

#[test]
fn holding_stores_a_fresh_piece_once_per_lock() {
    let mut board = Board::new(settings(1), 0);
    let c0 = board.current_piece().piece_type();
    let n0 = board.next_piece().piece_type();
    board.try_hold_piece();
    let held = board.held_piece().expect("piece was held");
    assert_eq!(held.piece_type(), c0);
    assert_eq!(held.coord(), (4, -1));
    assert_eq!(held.layout(), Piece::new(c0).layout());
    assert_eq!(board.current_piece().piece_type(), n0);
    assert!(!board.can_hold());
    // a second hold before the next lock changes nothing
    let cur = board.current_piece().coord();
    board.try_hold_piece();
    assert_eq!(board.current_piece().coord(), cur);
    assert_eq!(board.held_piece().expect("still held").piece_type(), c0);
}

#[test]
fn hold_swaps_back_after_a_lock() {
    let mut board = Board::new(settings(1), 0);
    let first = board.current_piece().piece_type();
    board.try_hold_piece();
    // park the new current piece on the floor and lock it
    board.set_current_piece(Piece::new(PieceType::O).at(0, 17));
    board.consume_piece();
    assert!(board.can_hold());
    board.try_hold_piece();
    // the previously held shape comes back into play
    assert_eq!(board.current_piece().piece_type(), first);
}

#[test]
fn restart_preserves_settings_and_records_the_high_score() {
    let mut board = Board::new(
        BoardSettings { starting_level: 3, ghost_piece_on: false, high_score: 50 },
        0,
    );
    board.set_current_piece(Piece::new(PieceType::I).at(6, 18));
    fill_row_except(&mut board, 19, &[6, 7, 8, 9]);
    board.consume_piece();
    assert_eq!(board.score(), 1 + 100 * 3);
    board.restart(7);
    assert_eq!(board.score(), 0);
    assert_eq!(board.lines(), 0);
    assert_eq!(board.level(), 3);
    assert_eq!(board.high_score(), 301);
    assert!(!board.get_settings().ghost_piece_on);
    assert_eq!(grid_population(&board), 0);
    assert!(!board.is_lost());
}

#[test]
fn level_rises_after_ten_times_the_starting_level_lines() {
    let mut board = Board::new(settings(1), 0);
    // clear ten single lines; the tenth lifts the level to 2
    for n in 1..=10u32 {
        board.set_current_piece(Piece::new(PieceType::I).at(6, 18));
        fill_row_except(&mut board, 19, &[6, 7, 8, 9]);
        board.consume_piece();
        assert_eq!(board.lines(), n);
    }
    assert_eq!(board.level(), 2);
    assert_eq!(board.tick_millis(), 633);
}
