use tetrs::audio::{paused_after, AudioCommand};
use tetrs::board::{scale_for_constraint, ScaleMode};
use tetrs::piece::{Piece, PieceBag, PieceType, PieceView};
use tetrs::save::parse_high_score;

#[test]
fn high_scores_parse_like_decimal_counters() {
    assert_eq!(parse_high_score("123"), 123);
    assert_eq!(parse_high_score("0"), 0);
    assert_eq!(parse_high_score("007"), 7);
    assert_eq!(parse_high_score("+7"), 7);
    assert_eq!(parse_high_score("4294967295"), u32::MAX);
}

#[test]
fn unparsable_high_scores_fall_back_to_zero() {
    assert_eq!(parse_high_score(""), 0);
    assert_eq!(parse_high_score("+"), 0);
    assert_eq!(parse_high_score("12a"), 0);
    assert_eq!(parse_high_score(" 12"), 0);
    assert_eq!(parse_high_score("12 "), 0);
    assert_eq!(parse_high_score("-5"), 0);
    assert_eq!(parse_high_score("4294967296"), 0);
    assert_eq!(parse_high_score("99999999999999999999"), 0);
}

#[test]
fn audio_commands_settle_the_paused_flag() {
    let play = AudioCommand::Play { name: String::from("tetrs_theme_fast.wav"), loop_forever: true };
    assert!(!paused_after(&play, true));
    assert!(paused_after(&AudioCommand::Pause, false));
    assert!(!paused_after(&AudioCommand::Resume, true));
    assert!(paused_after(&AudioCommand::TogglePause, false));
    assert!(!paused_after(&AudioCommand::TogglePause, true));
}

#[test]
fn scale_follows_the_window_size() {
    assert_eq!(scale_for_constraint(19, 100), ScaleMode::TooSmall);
    assert_eq!(scale_for_constraint(100, 19), ScaleMode::TooSmall);
    assert_eq!(scale_for_constraint(20, 20), ScaleMode::Small);
    assert_eq!(scale_for_constraint(39, 100), ScaleMode::Small);
    assert_eq!(scale_for_constraint(40, 39), ScaleMode::Small);
    assert_eq!(scale_for_constraint(40, 40), ScaleMode::Large);
    assert_eq!(scale_for_constraint(200, 100), ScaleMode::Large);
}

#[test]
fn scale_modes_draw_at_one_or_two_cells() {
    assert_eq!(ScaleMode::TooSmall.get_scale(), 1);
    assert_eq!(ScaleMode::Small.get_scale(), 1);
    assert_eq!(ScaleMode::Large.get_scale(), 2);
    assert_eq!(ScaleMode::default(), ScaleMode::Small);
}

#[test]
fn piece_view_shifts_the_o_shape_up() {
    let mut view = PieceView::new();
    let o = Piece::new(PieceType::O);
    view.set_piece(o);
    let shown = view.piece().expect("a piece is on display");
    // row 0 now shows what row 1 held; rows 1 and 2 are unchanged
    assert_eq!(shown.layout()[0], o.layout()[1]);
    assert_eq!(shown.layout()[1], o.layout()[1]);
    assert_eq!(shown.layout()[2], o.layout()[2]);
}

#[test]
fn piece_view_shows_other_shapes_as_they_are() {
    let mut view = PieceView::new();
    let t = Piece::new(PieceType::T);
    view.set_piece(t);
    let shown = view.piece().expect("a piece is on display");
    assert_eq!(shown.layout(), t.layout());
    assert_eq!(shown.coord(), t.coord());
    // an empty optional leaves the display alone
    view.set_piece_optional(None);
    assert_eq!(view.piece().expect("still shown").layout(), t.layout());
    view.set_piece_optional(Some(Piece::new(PieceType::I)));
    assert_eq!(
        view.piece().expect("replaced").layout(),
        Piece::new(PieceType::I).layout()
    );
}

#[test]
fn piece_view_scale_is_settable() {
    let mut view = PieceView::new();
    assert_eq!(view.get_scale(), 2);
    view.set_scale(false);
    assert_eq!(view.get_scale(), 1);
    view.set_scale(true);
    assert_eq!(view.get_scale(), 2);
}

#[test]
fn piece_bag_serves_pieces_in_cursor_order() {
    let mut bag = PieceBag::new();
    let expected: Vec<PieceType> = (0..7).map(|k| bag.get(k).piece_type()).collect();
    for t in expected {
        let popped = bag.pop();
        assert_eq!(popped.piece_type(), t);
        assert_eq!(popped.coord(), (4, -1));
    }
    // every refilled slot holds a fresh spawn-anchored piece
    for k in 0..7 {
        let p = bag.get(k);
        assert_eq!(p.coord(), (4, -1));
        assert_eq!(p.layout(), Piece::new(p.piece_type()).layout());
    }
}
