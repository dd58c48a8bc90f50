use ttoe::board::Board;
use ttoe::bot::brute::get_score;
use ttoe::bot::{BiasRng, Bot, Brute, PureRng, SmartRng};
use ttoe::moves::CellKind;
use ttoe::suit::Suit;
use ttoe::vec2::Vec2;

fn v(x: usize, y: usize) -> Vec2 {
    Vec2::new(x, y)
}

fn board_with(w: usize, h: usize, win_len: usize, moves: &[(usize, usize)]) -> Board {
    let mut b = Board::new(v(w, h), win_len);
    for &(x, y) in moves {
        b.apply_move(v(x, y)).unwrap();
    }
    b
}

#[test]
fn no_viable_moves_on_empty_board() {
    assert!(Board::new(v(5, 5), 3).viable_moves().is_empty());
}

#[test]
fn viable_moves_form_two_rings_in_scan_order() {
    let b = board_with(5, 5, 3, &[(0, 0)]);
    assert_eq!(
        b.viable_moves(),
        vec![v(1, 0), v(2, 0), v(0, 1), v(1, 1), v(2, 1), v(0, 2), v(1, 2), v(2, 2)]
    );
    let c = board_with(5, 5, 3, &[(2, 2)]);
    assert_eq!(c.viable_moves().len(), 24);
}

#[test]
fn frontier_and_empty_cells() {
    let b = board_with(3, 3, 3, &[(0, 0)]);
    assert_eq!(b.cells_of(CellKind::Frontier), vec![v(1, 0), v(0, 1), v(1, 1)]);
    assert_eq!(b.cells_of(CellKind::Empty).len(), 8);
    assert!(b.touches_mark(1, 1));
    assert!(!b.touches_mark(2, 2));
}

#[test]
fn search_takes_the_winning_cell() {
    // Cross has (0, 0) and (1, 0); (2, 0) completes three in a row.
    let b = board_with(5, 5, 3, &[(0, 0), (0, 2), (1, 0), (1, 2)]);
    assert_eq!(b.on_turn(), Suit::Cross);
    for depth in 1..=2 {
        assert_eq!(Brute::new(3, depth).choose_move(&b), v(2, 0));
    }
    let mut work = b.duplicate();
    assert_eq!(get_score(&mut work, 1), (Suit::Cross, 1, vec![v(2, 0)]));
    assert_eq!(work.on_turn(), Suit::Cross);
    assert_eq!(work.viable_moves(), b.viable_moves());
}

#[test]
fn search_blocks_a_loss() {
    // Circle to move; Cross threatens (2, 0) and Circle has no win of its own.
    let b = board_with(4, 4, 3, &[(0, 0), (3, 3), (1, 0)]);
    assert_eq!(b.on_turn(), Suit::Circle);
    assert_eq!(Brute::new(3, 2).choose_move(&b), v(2, 0));
}

#[test]
fn search_on_finished_games() {
    let mut won = board_with(3, 3, 3, &[(0, 0), (1, 0), (0, 1), (1, 1), (0, 2)]);
    assert_eq!(get_score(&mut won, 3), (Suit::Cross, -1, vec![]));
    let mut full = board_with(
        3,
        3,
        3,
        &[(0, 0), (1, 0), (2, 0), (1, 1), (0, 1), (2, 1), (1, 2), (0, 2), (2, 2)],
    );
    assert_eq!(get_score(&mut full, 3), (Suit::Empty, 0, vec![]));
    let mut open = board_with(3, 3, 3, &[(0, 0)]);
    assert_eq!(get_score(&mut open, 0), (Suit::Empty, 0, vec![]));
}

#[test]
fn search_ranks_a_draw_over_a_loss() {
    // Circle's only move on a 2x1 board fills it without a line: a draw.
    let mut b = board_with(2, 1, 2, &[(0, 0)]);
    assert_eq!(get_score(&mut b, 1), (Suit::Empty, 0, vec![v(1, 0)]));
}

#[test]
fn search_sums_the_scores_of_all_moves() {
    // 3x1, win length 2, Cross at the left end. Circle at (1, 0) blocks and
    // the board ends in a draw (score 0); Circle at (2, 0) lets Cross win
    // (score -1). The draw is best and the scores sum to -1.
    let mut b = board_with(3, 1, 2, &[(0, 0)]);
    let (outcome, score, moves) = get_score(&mut b, 2);
    assert_eq!(outcome, Suit::Empty);
    assert_eq!(score, -1);
    assert_eq!(moves, vec![v(1, 0)]);
}

#[test]
fn uniform_random_takes_the_only_empty_cell() {
    let b = board_with(
        3,
        3,
        3,
        &[(0, 0), (1, 0), (2, 0), (1, 1), (0, 1), (2, 1), (1, 2), (0, 2)],
    );
    for _ in 0..20 {
        assert_eq!(PureRng::new().choose_move(&b), v(2, 2));
    }
}

#[test]
fn uniform_random_on_full_board_takes_center() {
    let b = board_with(
        3,
        3,
        3,
        &[(0, 0), (1, 0), (2, 0), (1, 1), (0, 1), (2, 1), (1, 2), (0, 2), (2, 2)],
    );
    assert_eq!(PureRng::new().choose_move(&b), v(1, 1));
}

#[test]
fn empty_board_gives_center() {
    let b = Board::new(v(5, 5), 3);
    assert_eq!(Brute::new(3, 2).choose_move(&b), v(2, 2));
    assert_eq!(SmartRng::new().choose_move(&b), v(2, 2));
    let c = Board::new(v(4, 6), 3);
    assert_eq!(Brute::new(3, 1).choose_move(&c), v(1, 2));
    assert_eq!(SmartRng::new().play(&c, None), v(1, 2));
}

#[test]
fn adjacency_random_stays_next_to_marks() {
    let b = board_with(5, 5, 3, &[(0, 0)]);
    for _ in 0..20 {
        let p = SmartRng::new().choose_move(&b);
        assert!([v(1, 0), v(0, 1), v(1, 1)].contains(&p));
    }
}

#[test]
fn uniform_random_picks_empty_cells() {
    let b = board_with(3, 3, 3, &[(0, 0), (1, 1), (2, 2)]);
    for _ in 0..20 {
        let p = PureRng::new().play(&b, None);
        assert_eq!(b.at(p), Suit::Empty);
    }
}

#[test]
fn biased_random_scans_forward_and_wraps() {
    let b = board_with(3, 2, 3, &[(1, 0), (0, 0), (2, 0)]);
    assert_eq!(BiasRng::first_empty_from(&b, v(1, 0)), v(0, 1));
    assert_eq!(BiasRng::first_empty_from(&b, v(2, 1)), v(2, 1));
    let c = board_with(2, 2, 2, &[(0, 1), (1, 1), (1, 0)]);
    assert_eq!(BiasRng::first_empty_from(&c, v(0, 1)), v(0, 0));
    let full = board_with(2, 1, 2, &[(0, 0), (1, 0)]);
    assert_eq!(BiasRng::first_empty_from(&full, v(1, 0)), v(0, 0));
    for _ in 0..20 {
        let p = BiasRng::new().choose_move(&c);
        assert_eq!(p, v(0, 0));
    }
}

#[test]
fn bots_through_the_trait() {
    let b = board_with(5, 5, 3, &[(0, 0), (0, 2), (1, 0), (1, 2)]);
    let mut bots: Vec<Box<dyn Bot>> = vec![
        Box::new(Brute::new(3, 1)),
        Box::new(PureRng::new()),
        Box::new(SmartRng::new()),
        Box::new(BiasRng::new()),
    ];
    for bot in bots.iter_mut() {
        let p = bot.play(&b, Some(v(1, 2)));
        assert_eq!(b.at(p), Suit::Empty);
    }
}

#[test]
fn players_through_play_keep_their_promises() {
    // Only (1, 0) is empty.
    let one_left = board_with(2, 1, 2, &[(0, 0)]);
    assert_eq!(PureRng::new().play(&one_left, None), v(1, 0));
    assert_eq!(BiasRng::new().play(&one_left, None), v(1, 0));
    // Cross completes (2, 0).
    let win = board_with(5, 5, 3, &[(0, 0), (0, 1), (1, 0), (1, 1)]);
    assert_eq!(Brute::new(3, 2).play(&win, None), v(2, 0));
    let empty = Board::new(v(5, 5), 3);
    assert_eq!(Brute::new(3, 2).play(&empty, None), v(2, 2));
    assert_eq!(SmartRng::new().play(&empty, None), v(2, 2));
    let marked = board_with(5, 5, 3, &[(4, 4)]);
    for _ in 0..20 {
        let p = SmartRng::new().play(&marked, None);
        assert!([v(3, 3), v(4, 3), v(3, 4)].contains(&p));
        let q = BiasRng::new().play(&marked, None);
        assert_eq!(marked.at(q), Suit::Empty);
    }
}
