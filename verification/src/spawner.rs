//! The obstacle spawner: populates the world with trees up to a fixed cap
//! at startup, and replenishes them on a recurring timer, one bounded
//! attempt per firing.
//!
//! A spawn attempt draws a uniformly random lattice cell and accepts it only
//! if no live tree occupies that exact cell; startup repeats draws up to a
//! caller-given attempt bound, replenishment makes exactly one draw per
//! timer firing and skips the cycle when the drawn cell is taken.

use vstd::prelude::*;
use crate::grid::{in_lattice_x, in_lattice_y, TILE_COUNT_X, TILE_COUNT_Y};
use crate::timer::{spec_countdown, Countdown};
use crate::trees::{
    check_tree_position, lemma_wf_push, occupied, wf_trees, Tree, TREE_AMOUNT, TREE_HEALTH,
};

verus! {

/// Period of the replenishment timer, in time-units (one minute).
pub const TREE_SPAWN_PERIOD: u32 = 3600;

/// The recurring replenishment timer.
#[derive(Clone, Copy, Debug, PartialEq, Eq, Structural)]
pub struct TreeTimer(pub Countdown);

impl TreeTimer {
    /// The timer as created at startup: a full period to go.
    pub fn new() -> (t: TreeTimer)
        ensures
            t.0.remaining == TREE_SPAWN_PERIOD,
    {
        TreeTimer(Countdown { remaining: TREE_SPAWN_PERIOD })
    }
}

/// Relies on `rand::random_range`: a draw from the inclusive range
/// `lo..=hi` returns a value within that range, and panics only when the
/// range is empty — which the precondition rules out — or, on a thread's
/// very first draw, when the operating system cannot supply entropy: an
/// environmental failure, like running out of memory, that no condition on
/// the arguments can exclude.
#[verifier::external_body]
fn sample_in_range(lo: i32, hi: i32) -> (r: i32)
    requires
        lo <= hi,
    ensures
        lo <= r <= hi,
{
    rand::random_range(lo..=hi)
}

/// The outcome of one spawn attempt that drew the cell `(sx, sy)`: a tree
/// of full health planted there when the cell was free, nothing otherwise.
pub open spec fn spec_spawn_attempt(trees: Seq<Tree>, sx: i32, sy: i32) -> Seq<Tree> {
    if occupied(trees, sx as int, sy as int) {
        trees
    } else {
        trees.push(Tree { x: sx, y: sy, health: TREE_HEALTH })
    }
}

/// One spawn attempt: draw a uniformly random lattice cell; if it is free,
/// plant a full-health tree on it, else change nothing. Reports whether a
/// tree was planted.
pub fn spawn_tree(trees: &mut Vec<Tree>) -> (spawned: bool)
    requires
        wf_trees(old(trees)@),
    ensures
        wf_trees(final(trees)@),
        exists|sx: i32, sy: i32|
            {
                &&& in_lattice_x(sx as int)
                &&& in_lattice_y(sy as int)
                &&& final(trees)@ == spec_spawn_attempt(old(trees)@, sx, sy)
                &&& spawned == !occupied(old(trees)@, sx as int, sy as int)
            },
        old(trees)@.is_prefix_of(final(trees)@),
        final(trees)@.len() <= old(trees)@.len() + 1,
        spawned ==> final(trees)@.len() == old(trees)@.len() + 1
            && final(trees)@.last().health == TREE_HEALTH,
        !spawned ==> final(trees)@ == old(trees)@,
{
    let sx = sample_in_range(-TILE_COUNT_X, TILE_COUNT_X);
    let sy = sample_in_range(-TILE_COUNT_Y, TILE_COUNT_Y);
    if check_tree_position(sx, sy, trees) {
        proof {
            assert(trees@ == spec_spawn_attempt(old(trees)@, sx, sy));
        }
        false
    } else {
        let t = Tree { x: sx, y: sy, health: TREE_HEALTH };
        proof {
            lemma_wf_push(trees@, t);
        }
        trees.push(t);
        proof {
            assert(trees@ == spec_spawn_attempt(old(trees)@, sx, sy));
        }
        true
    }
}

/// The startup population process, given the cells the successive draws
/// would produce: each draw in turn is one spawn attempt, stopping early
/// once the cap is reached.
pub open spec fn spec_spawn_attempts(trees: Seq<Tree>, draws: Seq<(i32, i32)>) -> Seq<Tree>
    decreases draws.len(),
{
    if draws.len() == 0 {
        trees
    } else if trees.len() >= TREE_AMOUNT {
        trees
    } else {
        spec_spawn_attempts(
            spec_spawn_attempt(trees, draws[0].0, draws[0].1),
            draws.drop_first(),
        )
    }
}

/// Appending a draw to an attempt sequence applies one more attempt, unless
/// the cap had already been reached.
proof fn lemma_attempts_snoc(trees: Seq<Tree>, draws: Seq<(i32, i32)>, d: (i32, i32))
    ensures
        spec_spawn_attempts(trees, draws.push(d)) == (
            if spec_spawn_attempts(trees, draws).len() >= TREE_AMOUNT {
                spec_spawn_attempts(trees, draws)
            } else {
                spec_spawn_attempt(spec_spawn_attempts(trees, draws), d.0, d.1)
            }
        ),
    decreases draws.len(),
{
    if draws.len() == 0 {
        assert(draws.push(d).drop_first() =~= draws);
        assert(draws.push(d)[0] == d);
        assert(spec_spawn_attempts(trees, draws) == trees);
        if trees.len() >= TREE_AMOUNT {
            assert(spec_spawn_attempts(trees, draws.push(d)) == trees);
        } else {
            assert(spec_spawn_attempts(trees, draws.push(d)) == spec_spawn_attempts(
                spec_spawn_attempt(trees, d.0, d.1),
                draws.push(d).drop_first(),
            ));
            assert(spec_spawn_attempts(spec_spawn_attempt(trees, d.0, d.1), draws)
                == spec_spawn_attempt(trees, d.0, d.1));
        }
    } else {
        let step0 = spec_spawn_attempt(trees, draws[0].0, draws[0].1);
        let dd = draws.drop_first();
        assert(draws.push(d).drop_first() =~= dd.push(d));
        assert(draws.push(d)[0] == draws[0]);
        if trees.len() >= TREE_AMOUNT {
            assert(spec_spawn_attempts(trees, draws.push(d)) == trees);
            assert(spec_spawn_attempts(trees, draws) == trees);
        } else {
            lemma_attempts_snoc(step0, dd, d);
            assert(spec_spawn_attempts(trees, draws.push(d))
                == spec_spawn_attempts(step0, dd.push(d)));
            assert(spec_spawn_attempts(trees, draws) == spec_spawn_attempts(step0, dd));
        }
    }
}

/// Startup population: repeatedly make spawn attempts until the cap is
/// reached or the attempt bound is spent. Every tree already present is
/// kept unchanged; every planted tree starts at full health. The result is
/// the fold of some sequence of in-lattice draws — one per attempt made —
/// over the spawn-attempt step, and the process stops only at the cap or
/// with the attempt bound spent; in particular, on an empty world a first
/// attempt always plants, since every cell is free.
pub fn spawn_trees(trees: &mut Vec<Tree>, max_attempts: u32)
    requires
        wf_trees(old(trees)@),
    ensures
        wf_trees(final(trees)@),
        old(trees)@.is_prefix_of(final(trees)@),
        final(trees)@.len() >= old(trees)@.len(),
        old(trees)@.len() < TREE_AMOUNT ==> final(trees)@.len() <= TREE_AMOUNT,
        old(trees)@.len() >= TREE_AMOUNT ==> final(trees)@ == old(trees)@,
        forall|i: int|
            old(trees)@.len() <= i < final(trees)@.len()
                ==> #[trigger] final(trees)@[i].health == TREE_HEALTH,
        old(trees)@.len() == 0 && max_attempts > 0 ==> final(trees)@.len() >= 1,
        exists|draws: Seq<(i32, i32)>|
            {
                &&& draws.len() <= max_attempts
                &&& forall|i: int|
                    0 <= i < draws.len() ==> in_lattice_x(#[trigger] draws[i].0 as int)
                        && in_lattice_y(draws[i].1 as int)
                &&& final(trees)@ == spec_spawn_attempts(old(trees)@, draws)
                &&& (draws.len() == max_attempts || final(trees)@.len() >= TREE_AMOUNT)
            },
{
    let ghost orig = trees@;
    let ghost mut draws: Seq<(i32, i32)> = Seq::empty();
    let mut attempts: u32 = max_attempts;
    while attempts > 0 && trees.len() < TREE_AMOUNT
        invariant
            wf_trees(trees@),
            orig.is_prefix_of(trees@),
            trees@.len() >= orig.len(),
            orig.len() < TREE_AMOUNT ==> trees@.len() <= TREE_AMOUNT,
            orig.len() >= TREE_AMOUNT ==> trees@ == orig,
            forall|i: int|
                orig.len() <= i < trees@.len() ==> #[trigger] trees@[i].health == TREE_HEALTH,
            attempts <= max_attempts,
            draws.len() == max_attempts - attempts,
            forall|i: int|
                0 <= i < draws.len() ==> in_lattice_x(#[trigger] draws[i].0 as int)
                    && in_lattice_y(draws[i].1 as int),
            trees@ == spec_spawn_attempts(orig, draws),
            attempts < max_attempts && orig.len() == 0 ==> trees@.len() >= 1,
        decreases attempts,
    {
        attempts = attempts - 1;
        let ghost before = trees@;
        let planted = spawn_tree(trees);
        proof {
            let (sx, sy) = choose|sx: i32, sy: i32|
                {
                    &&& in_lattice_x(sx as int)
                    &&& in_lattice_y(sy as int)
                    &&& trees@ == spec_spawn_attempt(before, sx, sy)
                    &&& planted == !occupied(before, sx as int, sy as int)
                };
            lemma_attempts_snoc(orig, draws, (sx, sy));
            draws = draws.push((sx, sy));
        }
    }
}

/// The replenishment transition, given the cell that the random draw would
/// produce: advance the timer; when it fires, rewind it to a full period
/// and, if the population is below the cap, make one spawn attempt on the
/// drawn cell; an occupied draw skips the cycle.
pub open spec fn spec_replenish(
    remaining: u32, trees: Seq<Tree>, elapsed: u32, sx: i32, sy: i32,
) -> (u32, Seq<Tree>) {
    let rem = spec_countdown(remaining, elapsed);
    if rem == 0 {
        if trees.len() < TREE_AMOUNT {
            (TREE_SPAWN_PERIOD, spec_spawn_attempt(trees, sx, sy))
        } else {
            (TREE_SPAWN_PERIOD, trees)
        }
    } else {
        (rem, trees)
    }
}

/// One step of the spawner system: advance the replenishment timer and, on
/// firing, make exactly one spawn attempt. At the cap, the firing is a
/// no-op on the tree set.
pub fn check_tree_amount(timer: &mut TreeTimer, elapsed: u32, trees: &mut Vec<Tree>)
    requires
        wf_trees(old(trees)@),
    ensures
        wf_trees(final(trees)@),
        exists|sx: i32, sy: i32|
            {
                &&& in_lattice_x(sx as int)
                &&& in_lattice_y(sy as int)
                &&& (final(timer).0.remaining, final(trees)@) == spec_replenish(
                    old(timer).0.remaining, old(trees)@, elapsed, sx, sy,
                )
            },
        old(trees)@.len() >= TREE_AMOUNT ==> final(trees)@ == old(trees)@,
        old(trees)@.is_prefix_of(final(trees)@),
        final(trees)@.len() <= old(trees)@.len() + 1,
{
    let fired = timer.0.tick(elapsed);
    if fired {
        timer.0.reset(TREE_SPAWN_PERIOD);
        if trees.len() < TREE_AMOUNT {
            let planted = spawn_tree(trees);
            proof {
                let (sx, sy) = choose|sx: i32, sy: i32|
                    {
                        &&& in_lattice_x(sx as int)
                        &&& in_lattice_y(sy as int)
                        &&& trees@ == spec_spawn_attempt(old(trees)@, sx, sy)
                        &&& planted == !occupied(old(trees)@, sx as int, sy as int)
                    };
                assert((timer.0.remaining, trees@) == spec_replenish(
                    old(timer).0.remaining, old(trees)@, elapsed, sx, sy,
                ));
            }
        } else {
            proof {
                assert((timer.0.remaining, trees@) == spec_replenish(
                    old(timer).0.remaining, old(trees)@, elapsed, 0i32, 0i32,
                ));
            }
        }
    } else {
        proof {
            assert((timer.0.remaining, trees@) == spec_replenish(
                old(timer).0.remaining, old(trees)@, elapsed, 0i32, 0i32,
            ));
        }
    }
}

} // verus!
