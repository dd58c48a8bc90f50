use ttoe::board::{Board, Outcome};
use ttoe::err::Error;
use ttoe::suit::Suit;
use ttoe::vec2::Vec2;

fn v(x: usize, y: usize) -> Vec2 {
    Vec2::new(x, y)
}

fn board_with(w: usize, h: usize, win_len: usize, moves: &[(usize, usize)]) -> Board {
    let mut b = Board::new(v(w, h), win_len);
    for &(x, y) in moves {
        b.apply_move(v(x, y)).unwrap();
    }
    b
}

fn cells(b: &Board) -> Vec<Suit> {
    let size = b.size();
    let mut out = vec![];
    for y in 0..size.y {
        for x in 0..size.x {
            out.push(b.at(v(x, y)));
        }
    }
    out
}

#[test]
fn new_board_is_empty_with_cross_on_turn() {
    let b = Board::new(v(5, 4), 3);
    assert!(cells(&b).iter().all(|s| *s == Suit::Empty));
    assert_eq!(cells(&b).len(), 20);
    assert_eq!(b.on_turn(), Suit::Cross);
    assert_eq!(b.selected(), v(2, 1));
    assert_eq!(b.win_len(), 3);
    assert_eq!(b.size(), v(5, 4));
    assert_eq!(b.win_pos(), None);
}

#[test]
fn apply_move_places_mark_and_passes_turn() {
    let mut b = Board::new(v(3, 3), 3);
    assert_eq!(b.apply_move(v(1, 2)), Ok(()));
    assert_eq!(b.at(v(1, 2)), Suit::Cross);
    assert_eq!(b.on_turn(), Suit::Circle);
    assert_eq!(b.apply_move(v(0, 0)), Ok(()));
    assert_eq!(b.at(v(0, 0)), Suit::Circle);
    assert_eq!(b.on_turn(), Suit::Cross);
}

#[test]
fn apply_move_on_taken_cell_is_refused() {
    let mut b = board_with(3, 3, 3, &[(1, 1)]);
    assert_eq!(b.apply_move(v(1, 1)), Err(Error::AlreadyPopulated));
    assert_eq!(b.at(v(1, 1)), Suit::Cross);
    assert_eq!(b.on_turn(), Suit::Circle);
}

#[test]
fn apply_move_without_turn_is_refused() {
    let mut b = board_with(3, 3, 3, &[(1, 1)]);
    b.inspect_mode();
    assert_eq!(b.on_turn(), Suit::Empty);
    assert_eq!(b.apply_move(v(0, 0)), Err(Error::NoActiveTurn));
    assert_eq!(b.at(v(0, 0)), Suit::Empty);
}

#[test]
fn play_uses_the_selected_cell() {
    let mut b = Board::new(v(4, 4), 3);
    b.set_selected(v(3, 0));
    assert_eq!(b.play(), Ok(()));
    assert_eq!(b.at(v(3, 0)), Suit::Cross);
    assert_eq!(b.play(), Err(Error::AlreadyPopulated));
}

#[test]
fn set_selected_clamps_into_the_board() {
    let mut b = Board::new(v(4, 3), 3);
    b.set_selected(v(10, 1));
    assert_eq!(b.selected(), v(3, 1));
    b.set_selected(v(2, 7));
    assert_eq!(b.selected(), v(2, 2));
}

#[test]
fn undo_restores_cells_and_turn() {
    let mut b = board_with(3, 3, 3, &[(0, 0)]);
    let before = cells(&b);
    let turn = b.on_turn();
    b.apply_move(v(2, 2)).unwrap();
    b.undo();
    assert_eq!(cells(&b), before);
    assert_eq!(b.on_turn(), turn);
}

#[test]
fn second_undo_has_no_effect() {
    let mut b = board_with(3, 3, 3, &[(0, 0), (1, 1)]);
    b.undo();
    let after_first = cells(&b);
    b.undo();
    assert_eq!(cells(&b), after_first);
    assert_eq!(b.at(v(0, 0)), Suit::Cross);
    assert_eq!(b.on_turn(), Suit::Circle);
}

#[test]
fn undo_on_fresh_board_does_nothing() {
    let mut b = Board::new(v(3, 3), 3);
    b.undo();
    assert!(cells(&b).iter().all(|s| *s == Suit::Empty));
    assert_eq!(b.on_turn(), Suit::Cross);
}

#[test]
fn reset_clears_everything() {
    let mut b = board_with(3, 3, 3, &[(0, 0), (1, 0), (0, 1), (1, 1), (0, 2)]);
    assert_eq!(b.check_win(), Some(Suit::Cross));
    b.reset();
    assert!(cells(&b).iter().all(|s| *s == Suit::Empty));
    assert_eq!(b.on_turn(), Suit::Cross);
    assert_eq!(b.win_pos(), None);
    b.undo();
    assert!(cells(&b).iter().all(|s| *s == Suit::Empty));
}

#[test]
fn one_mark_per_cell_after_moves() {
    let b = board_with(4, 4, 3, &[(0, 0), (1, 0), (2, 2), (3, 3), (0, 3)]);
    let c = cells(&b);
    assert_eq!(c.len(), 16);
    assert_eq!(c.iter().filter(|s| **s == Suit::Cross).count(), 3);
    assert_eq!(c.iter().filter(|s| **s == Suit::Circle).count(), 2);
    assert_eq!(c.iter().filter(|s| **s == Suit::Empty).count(), 11);
}

#[test]
fn diagonal_win_is_reported_with_its_line() {
    // Cross plays the diagonal, Circle plays elsewhere in between.
    let b = board_with(5, 5, 3, &[(0, 0), (4, 0), (1, 1), (4, 2), (2, 2)]);
    assert_eq!(b.evaluate(), Outcome::Win(Suit::Cross, v(0, 0), Vec2::new(1, 1)));
}

#[test]
fn evaluate_gives_the_same_result_twice() {
    let b = board_with(5, 5, 3, &[(0, 0), (4, 0), (1, 1), (4, 2), (2, 2)]);
    assert_eq!(b.evaluate(), b.evaluate());
    let c = board_with(5, 5, 3, &[(0, 0), (4, 0)]);
    assert_eq!(c.evaluate(), c.evaluate());
}

#[test]
fn row_column_and_down_left_wins() {
    let row = board_with(4, 4, 3, &[(1, 3), (0, 0), (2, 3), (0, 1), (3, 3)]);
    assert_eq!(row.evaluate(), Outcome::Win(Suit::Cross, v(1, 3), Vec2::new(1, 0)));
    let col = board_with(4, 4, 3, &[(3, 0), (0, 0), (3, 1), (1, 0), (3, 2)]);
    assert_eq!(col.evaluate(), Outcome::Win(Suit::Cross, v(3, 0), Vec2::new(0, 1)));
    let circle = board_with(4, 4, 3, &[(0, 0), (3, 1), (1, 0), (2, 2), (3, 3), (1, 3)]);
    assert_eq!(circle.evaluate(), Outcome::Win(Suit::Circle, v(3, 1), Vec2::new(-1, 1)));
}

#[test]
fn down_left_win_starting_at_win_len_minus_one() {
    let b = board_with(3, 3, 3, &[(2, 0), (0, 0), (1, 1), (1, 0), (0, 2)]);
    assert_eq!(b.evaluate(), Outcome::Win(Suit::Cross, v(2, 0), Vec2::new(-1, 1)));
}

#[test]
fn no_line_across_the_edge() {
    // (3, 0), (0, 1) follow each other in storage but are not a line.
    let b = board_with(4, 4, 2, &[(3, 0), (1, 2)]);
    assert_eq!(b.evaluate(), Outcome::InProgress);
}

#[test]
fn full_board_without_line_is_a_draw() {
    let b = board_with(
        3,
        3,
        3,
        &[(0, 0), (1, 0), (2, 0), (1, 1), (0, 1), (2, 1), (1, 2), (0, 2), (2, 2)],
    );
    assert_eq!(b.evaluate(), Outcome::Draw);
}

#[test]
fn board_with_empty_cell_and_no_line_is_in_progress() {
    let b = board_with(3, 3, 3, &[(0, 0), (1, 0), (2, 0), (1, 1)]);
    assert_eq!(b.evaluate(), Outcome::InProgress);
    assert_eq!(Board::new(v(3, 3), 3).evaluate(), Outcome::InProgress);
}

#[test]
fn win_length_one_wins_at_once() {
    let b = board_with(2, 2, 1, &[(1, 1)]);
    assert_eq!(b.evaluate(), Outcome::Win(Suit::Cross, v(1, 1), Vec2::new(1, 0)));
}

#[test]
fn check_win_records_the_line() {
    let mut b = board_with(5, 5, 3, &[(0, 0), (4, 0), (1, 1), (4, 2), (2, 2)]);
    assert_eq!(b.check_win(), Some(Suit::Cross));
    assert_eq!(b.win_pos(), Some((v(0, 0), Vec2::new(1, 1))));
}

#[test]
fn check_win_on_draw_and_in_progress() {
    let mut draw = board_with(
        3,
        3,
        3,
        &[(0, 0), (1, 0), (2, 0), (1, 1), (0, 1), (2, 1), (1, 2), (0, 2), (2, 2)],
    );
    assert_eq!(draw.check_win(), None);
    let mut open = board_with(3, 3, 3, &[(0, 0)]);
    assert_eq!(open.check_win(), Some(Suit::Empty));
    assert_eq!(open.win_pos(), None);
}

#[test]
fn duplicate_is_equal_and_independent() {
    let b = board_with(3, 3, 3, &[(0, 0), (1, 1)]);
    let mut c = b.duplicate();
    assert_eq!(cells(&c), cells(&b));
    c.apply_move(v(2, 2)).unwrap();
    assert_eq!(b.at(v(2, 2)), Suit::Empty);
}

#[test]
fn center_cell_rounds_towards_origin() {
    assert_eq!(Board::new(v(5, 5), 3).center_cell(), v(2, 2));
    assert_eq!(Board::new(v(4, 6), 3).center_cell(), v(1, 2));
    assert_eq!(Board::new(v(1, 1), 1).center_cell(), v(0, 0));
}

#[test]
fn slice_of_board() {
    let b = board_with(4, 3, 3, &[(2, 1)]);
    let s = b.slice(v(1, 1), v(4, 3));
    assert_eq!(s.size(), v(3, 2));
    assert_eq!(s.start(), v(1, 1));
    assert_eq!(s.end(), v(4, 3));
    assert_eq!(*s.get(v(1, 0)), Suit::Cross);
    assert_eq!(*s.get(v(0, 0)), Suit::Empty);
    assert!(s.contains(v(3, 2)));
    assert!(!s.contains(v(0, 1)));
}

#[test]
fn play_turn_ends_the_game_on_a_win() {
    let mut b = board_with(3, 3, 3, &[(0, 0), (1, 0), (0, 1), (1, 1)]);
    b.set_selected(v(0, 2));
    let (res, outcome) = b.play_turn();
    assert_eq!(res, Ok(()));
    assert_eq!(outcome, Outcome::Win(Suit::Cross, v(0, 0), Vec2::new(0, 1)));
    assert_eq!(b.on_turn(), Suit::Empty);
    assert_eq!(b.win_pos(), Some((v(0, 0), Vec2::new(0, 1))));
    b.set_selected(v(2, 2));
    let (res, outcome) = b.play_turn();
    assert_eq!(res, Err(Error::NoActiveTurn));
    assert_eq!(outcome, Outcome::Win(Suit::Cross, v(0, 0), Vec2::new(0, 1)));
    assert_eq!(b.at(v(2, 2)), Suit::Empty);
}

#[test]
fn play_turn_in_progress_and_draw() {
    let mut b = board_with(
        3,
        3,
        3,
        &[(0, 0), (1, 0), (2, 0), (1, 1), (0, 1), (2, 1), (1, 2), (0, 2)],
    );
    b.set_selected(v(0, 0));
    assert_eq!(b.play_turn(), (Err(Error::AlreadyPopulated), Outcome::InProgress));
    assert_eq!(b.on_turn(), Suit::Cross);
    b.set_selected(v(2, 2));
    assert_eq!(b.play_turn(), (Ok(()), Outcome::Draw));
    assert_eq!(b.on_turn(), Suit::Empty);
}

#[test]
fn view_window_follows_the_cursor() {
    let mut b = Board::new(v(10, 10), 5);
    // 25 columns and 10 rows of screen: 5 columns and 3 rows of cells.
    assert_eq!(b.view_window(None, v(25, 10)), Some((v(2, 3), v(7, 6))));
    b.set_selected(v(9, 0));
    assert_eq!(b.view_window(Some(v(0, 0)), v(25, 10)), Some((v(5, 0), v(10, 3))));
    assert_eq!(b.view_window(None, v(8, 10)), None);
}

#[test]
fn shift_selected_jumps_past_marks() {
    // Row 0: . X X . .
    let mut b = board_with(5, 3, 3, &[(1, 0), (1, 2), (2, 0)]);
    b.set_selected(v(0, 0));
    b.shift_selected(Vec2::new(1, 0));
    assert_eq!(b.selected(), v(3, 0));
    // Nothing more to pass: stops at the edge.
    b.shift_selected(Vec2::new(1, 0));
    assert_eq!(b.selected(), v(4, 0));
    b.shift_selected(Vec2::new(-1, 0));
    assert_eq!(b.selected(), v(0, 0));
    b.set_selected(v(1, 0));
    b.shift_selected(Vec2::new(0, 1));
    assert_eq!(b.selected(), v(1, 1));
}
