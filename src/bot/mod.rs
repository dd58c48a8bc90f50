use rand::seq::SliceRandom;
use rand::Rng;
use vstd::prelude::*;

use crate::board::Board;
use crate::vec2::Vec2;

pub mod bias_rng;
pub mod brute;
pub mod pure_rng;
pub mod smart_rng;

pub use self::bias_rng::BiasRng;
pub use self::brute::Brute;
pub use self::pure_rng::PureRng;
pub use self::smart_rng::SmartRng;

verus! {

/// A computer player.
pub trait Bot {
    /// The cell this player plays on `board`. `last` is the opponent's last
    /// move, when it is known.
    fn play(&mut self, board: &Board, last: Option<Vec2>) -> (r: Vec2)
        requires
            board.wf(),
        ensures
            board.game().contains(r),
    ;
}

/// Relies on rand's `SliceRandom::choose` on the thread's generator: `None`
/// for an empty slice, otherwise one of its elements.
#[verifier::external_body]
pub(crate) fn choose_from(items: &Vec<Vec2>) -> (r: Option<Vec2>)
    ensures
        items@.len() == 0 ==> r is None,
        items@.len() > 0 ==> r is Some && items@.contains(r->Some_0),
{
    items[..].choose(&mut rand::thread_rng()).copied()
}

/// Relies on rand's `Rng::gen_range` on the thread's generator over
/// `0..n`: a number below `n`. The range must not be empty.
#[verifier::external_body]
pub(crate) fn random_below(n: usize) -> (r: usize)
    requires
        n > 0,
    ensures
        r < n,
{
    rand::thread_rng().gen_range(0..n)
}

} // verus!
