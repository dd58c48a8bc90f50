use ttoe::append_str::{utf8_len, AppendStr};
use ttoe::args::Args;
use ttoe::board::Board;
use ttoe::board_gui::GuiState;
use ttoe::draw_buffer::DrawBuffer;
use ttoe::slice_2d::Slice2d;
use ttoe::suit::Suit;
use ttoe::vec2::Vec2;

#[test]
fn suit_opposite_and_none() {
    assert_eq!(Suit::Cross.oposite(), Suit::Circle);
    assert_eq!(Suit::Circle.oposite(), Suit::Cross);
    assert_eq!(Suit::Empty.oposite(), Suit::Empty);
    assert!(Suit::Empty.is_none());
    assert!(!Suit::Cross.is_none());
}

#[test]
fn vec2_comparisons() {
    let a = Vec2::new(2usize, 5usize);
    let b = Vec2::new(3usize, 4usize);
    assert!(a.gt_or(b));
    assert!(!a.ge_and(b));
    assert!(a.lt_or(b));
    assert!(!a.lt_and(b));
    assert!(a.ge_or(b));
    assert!(a.lt_and(Vec2::new(3, 6)));
    assert!(a.ge_and(Vec2::new(2, 5)));
}

#[test]
fn vec2_arithmetic() {
    let a = Vec2::new(7usize, 9usize);
    assert_eq!(a.cmul(Vec2::new(4, 2)), Vec2::new(28, 18));
    assert_eq!(a.cdiv(Vec2::new(2, 4)), Vec2::new(3, 2));
    assert_eq!(a.max(), 9);
    assert_eq!(a.min(), 7);
    assert_eq!(a.cmax(Vec2::new(8, 1)), Vec2::new(8, 9));
    assert_eq!(a.cmin(Vec2::new(8, 1)), Vec2::new(7, 1));
    assert_eq!(a.prod(), 63);
    assert_eq!(a.tuple(), (7, 9));
    assert_eq!(a.saturating_sub(Vec2::new(10, 4)), Vec2::new(0, 5));
    assert_eq!(a.clamp(Vec2::new(0, 0), Vec2::new(5, 10)), Vec2::new(5, 9));
    assert_eq!(a.signed(), Vec2::new(7isize, 9isize));
    assert_eq!(Vec2::new(3isize, 0isize).unsigned(), Vec2::new(3usize, 0usize));
}

#[test]
fn vec2_signed_steps() {
    let mut a = Vec2::new(0usize, 5usize);
    assert_eq!(a.saturating_add_signed(Vec2::new(-1, 2)), Vec2::new(0, 7));
    assert_eq!(a.wrapping_add_signed(Vec2::new(-1, -5)), Vec2::new(usize::MAX, 0));
    let mut m = Vec2::new(usize::MAX, 1usize);
    assert_eq!(m.saturating_add_signed(Vec2::new(1, -3)), Vec2::new(usize::MAX, 0));
    assert_eq!(a, Vec2::new(0, 5));
}

#[test]
fn vec2_range_walks_rows() {
    let mut r = Vec2::new(0usize, 0usize).to(Vec2::new(2, 2));
    let mut seen = vec![];
    while let Some(p) = r.next() {
        seen.push(p);
    }
    assert_eq!(seen, vec![Vec2::new(0, 0), Vec2::new(1, 0), Vec2::new(0, 1), Vec2::new(1, 1)]);
    let mut empty = Vec2::new(1usize, 0usize).to(Vec2::new(1, 3));
    assert_eq!(empty.next(), None);
}

#[test]
fn draw_buffer_collects_text() {
    let mut out = DrawBuffer::new();
    out.draw("ab");
    out.draw('c');
    out.draw(String::from("d"));
    out.repeat(3, "x+");
    assert_eq!(out.as_str(), "abcdx+x+x+");
    out.repeat(0, "y");
    assert_eq!(out.take(), "abcdx+x+x+");
    assert_eq!(out.as_str(), "");
}

#[test]
fn draw_buffer_base() {
    let mut out = DrawBuffer::new();
    assert_eq!(out.base(), Vec2::new(0, 0));
    out.set_base(Vec2::new(1, 1));
    out.add_base(Vec2::new(2, 3));
    assert_eq!(out.base(), Vec2::new(3, 4));
}

#[test]
fn append_lengths() {
    assert_eq!(utf8_len('a'), 1);
    assert_eq!(utf8_len('é'), 2);
    assert_eq!(utf8_len('€'), 3);
    assert_eq!(utf8_len('𝄞'), 4);
    assert_eq!("héllo".append_len(), 6);
    assert_eq!('€'.append_len(), 3);
    let mut s = String::from("a");
    'b'.append_to(&mut s);
    "cd".append_to(&mut s);
    assert_eq!(s, "abcd");
}

#[test]
fn args_defaults() {
    let a = Args::new();
    assert!(!a.help());
    assert_eq!(a.size(), Vec2::new(15, 15));
    assert_eq!(a.win_len(), 5);
    assert_eq!(a.use_color(), None);
}

#[test]
fn args_given_values() {
    let mut a = Args::new();
    a.set_size(Some(Vec2::new(3, 4)));
    assert_eq!(a.win_len(), 4);
    a.set_win_len(Some(2));
    assert_eq!(a.win_len(), 2);
    a.set_help(true);
    a.set_use_color(Some(false));
    assert!(a.help());
    assert_eq!(a.size(), Vec2::new(3, 4));
    assert_eq!(a.use_color(), Some(false));
}

#[test]
fn gui_state_scrolls_only_a_placed_view() {
    let mut g = GuiState::new();
    g.scroll_by(Vec2::new(1, 1));
    assert_eq!(g.view_pos(), None);
    g.set_view_pos(Some(Vec2::new(2, 0)));
    g.scroll_by(Vec2::new(-1, -1));
    assert_eq!(g.view_pos(), Some(Vec2::new(1, 0)));
    g.center();
    assert_eq!(g.view_pos(), None);
}

#[test]
fn centering_in_space() {
    assert_eq!(Board::center(Vec2::new(10, 7), Vec2::new(4, 2)), Vec2::new(3, 2));
    assert_eq!(Board::center(Vec2::new(3, 3), Vec2::new(5, 1)), Vec2::new(0, 1));
}

#[test]
fn slice_over_plain_data() {
    let data = [0, 1, 2, 3, 4, 5, 6, 7, 8, 9, 10, 11];
    let s = Slice2d::new(&data, Vec2::new(4, 3), Vec2::new(1, 1), Vec2::new(2, 2));
    assert_eq!(*s.get(Vec2::new(0, 0)), 5);
    assert_eq!(*s.get(Vec2::new(1, 1)), 10);
    assert_eq!(s.end(), Vec2::new(3, 3));
    assert!(s.contains(Vec2::new(2, 2)));
    assert!(!s.contains(Vec2::new(3, 2)));
}

#[test]
fn vec2_index_by_number() {
    let mut a = Vec2::new(4usize, 8usize);
    assert_eq!(*a.index(0), 4);
    assert_eq!(*a.index(1), 8);
    *a.index_mut(1) = 3;
    assert_eq!(a, Vec2::new(4, 3));
}

#[test]
fn args_size_from_screen() {
    let mut a = Args::new();
    a.finalize(Some(Vec2::new(81, 24)));
    assert_eq!(a.size(), Vec2::new(20, 11));
    let mut tiny = Args::new();
    tiny.finalize(Some(Vec2::new(3, 1)));
    assert_eq!(tiny.size(), Vec2::new(1, 1));
    let mut given = Args::new();
    given.set_size(Some(Vec2::new(7, 7)));
    given.finalize(Some(Vec2::new(81, 24)));
    assert_eq!(given.size(), Vec2::new(7, 7));
    let mut unknown = Args::new();
    unknown.finalize(None);
    assert!(!unknown.has_size());
}

#[test]
fn args_make_the_board() {
    let mut a = Args::new();
    a.set_size(Some(Vec2::new(4, 3)));
    a.set_win_len(Some(9));
    assert!(a.new_board().is_none());
    a.set_win_len(Some(0));
    assert!(a.new_board().is_none());
    a.set_win_len(Some(4));
    let b = a.new_board().unwrap();
    assert_eq!(b.size(), Vec2::new(4, 3));
    assert_eq!(b.win_len(), 4);
    assert_eq!(b.on_turn(), Suit::Cross);
    a.set_size(Some(Vec2::new(0, 3)));
    assert!(a.new_board().is_none());
    a.set_size(Some(Vec2::new(usize::MAX, 2)));
    assert!(a.new_board().is_none());
    assert_eq!(Args::new().new_board().unwrap().win_len(), 5);
}

#[test]
fn vec2_range_stays_done() {
    let mut r = Vec2::new(1usize, 1usize).to(Vec2::new(3, 2));
    assert_eq!(r.next(), Some(Vec2::new(1, 1)));
    assert_eq!(r.next(), Some(Vec2::new(2, 1)));
    assert_eq!(r.next(), None);
    assert_eq!(r.next(), None);
    assert_eq!(r.next(), None);
}
