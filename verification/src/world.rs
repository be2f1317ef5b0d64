//! The whole simulation: one value holding every system's state, and the
//! fixed-order tick that advances them all.
//!
//! Each tick runs, in this order: the motion controller (consumes the
//! direction keys and resolves collisions), the action state machine (may
//! run one hit-test pass and credit wood), the obstacle spawner (on its own
//! cadence), and the exchange kiosk (consumes the confirm edge). Systems
//! that run later in a tick observe the state already updated by the
//! earlier ones.

use vstd::prelude::*;
use crate::action::{
    lemma_destroyed_le_len, player_action, spec_action, PlayerAction, TREE_YIELD,
};
use crate::grid::{in_lattice_x, in_lattice_y};
use crate::kiosk::{check_sell_action, spec_sell, SellSign, SELL_RATE};
use crate::ledger::{Ledger, ResourceCounter};
use crate::player::{
    player_movement, spec_move, wf_player, Direction, MoveKeys, Player, PlayerState, Speed,
    Strength, PLAYER_SPEED, PLAYER_STRENGTH,
};
use crate::spawner::{
    check_tree_amount, spawn_trees, spec_replenish, TreeTimer, TREE_SPAWN_PERIOD,
};
use crate::trees::{wf_trees, Tree, TREE_AMOUNT, TREE_HEALTH};

verus! {

/// Everything the player pressed during one tick: the four direction keys,
/// the attack trigger edge, and the kiosk confirm edge.
#[derive(Clone, Copy, Debug, PartialEq, Eq, Structural)]
pub struct TickInput {
    pub keys: MoveKeys,
    pub attack: bool,
    pub confirm: bool,
}

/// The full state of a session.
#[derive(Debug)]
pub struct World {
    pub player: Player,
    pub action: PlayerAction,
    pub trees: Vec<Tree>,
    pub tree_timer: TreeTimer,
    pub ledger: Ledger,
    pub sign: SellSign,
}

/// World well-formedness: the tree set is well formed and the player's
/// facing is horizontal.
pub open spec fn wf_world(w: &World) -> bool {
    &&& wf_trees(w.trees@)
    &&& wf_player(w.player)
}

/// How one tick relates the new world to the old one, given the lattice
/// cell that the spawner's random draw would produce: the composition, in
/// order, of the motion, action, spawner and kiosk transitions.
pub open spec fn spec_tick_rel(
    w0: &World, w1: &World, input: TickInput, elapsed: u32, sx: i32, sy: i32,
) -> bool {
    let p1 = spec_move(w0.player, input.keys, elapsed, w0.trees@);
    let act = spec_action(w0.action, p1, input.attack, elapsed, w0.trees@, w0.ledger);
    let rep = spec_replenish(w0.tree_timer.0.remaining, act.2, elapsed, sx, sy);
    &&& w1.action == act.0
    &&& w1.player == act.1
    &&& w1.trees@ == rep.1
    &&& w1.tree_timer.0.remaining == rep.0
    &&& w1.ledger == spec_sell(act.1.x as int, act.1.y as int, w0.sign, input.confirm, act.3)
    &&& w1.sign == w0.sign
}

impl World {
    /// A fresh session: the player and the sell sign at the origin, the
    /// action controller ready, empty counters, and the world populated
    /// with trees by up to `max_attempts` random draws.
    pub fn new(max_attempts: u32) -> (w: World)
        ensures
            wf_world(&w),
            w.player == (Player {
                x: 0,
                y: 0,
                facing: Direction::Right,
                state: PlayerState::Stand(Direction::Right),
                speed: Speed(PLAYER_SPEED),
                strength: Strength(PLAYER_STRENGTH),
            }),
            w.action.state is Ready,
            w.trees@.len() <= TREE_AMOUNT,
            w.tree_timer.0.remaining == TREE_SPAWN_PERIOD,
            w.ledger == (Ledger { coins: ResourceCounter(0), wood: ResourceCounter(0) }),
            w.sign == (SellSign { x: 0, y: 0 }),
            forall|i: int| 0 <= i < w.trees@.len() ==> #[trigger] w.trees@[i].health == TREE_HEALTH,
            max_attempts > 0 ==> w.trees@.len() >= 1,
    {
        let mut trees: Vec<Tree> = Vec::new();
        spawn_trees(&mut trees, max_attempts);
        World {
            player: Player::new(),
            action: PlayerAction::new(),
            trees,
            tree_timer: TreeTimer::new(),
            ledger: Ledger::new(),
            sign: SellSign::new(),
        }
    }

    /// One simulation tick: motion, then action, then spawner, then kiosk,
    /// in that fixed order. The two arithmetic bounds keep the wood credit
    /// and the exchange within the counters' machine range.
    pub fn tick(&mut self, input: &TickInput, elapsed: u32)
        requires
            wf_world(old(self)),
            old(self).ledger.wood.0 + TREE_YIELD * old(self).trees@.len() <= u64::MAX,
            old(self).ledger.coins.0
                + SELL_RATE * (old(self).ledger.wood.0 + TREE_YIELD * old(self).trees@.len())
                <= u64::MAX,
        ensures
            wf_world(final(self)),
            exists|sx: i32, sy: i32|
                {
                    &&& in_lattice_x(sx as int)
                    &&& in_lattice_y(sy as int)
                    &&& spec_tick_rel(old(self), final(self), *input, elapsed, sx, sy)
                },
    {
        let mut p = self.player;
        player_movement(&mut p, &input.keys, elapsed, &self.trees);
        let ghost p1 = p;

        let mut a = self.action;
        let mut l = self.ledger;
        proof {
            lemma_destroyed_le_len(self.trees@, p.x as int, p.y as int, p.strength.0 as int);
        }
        player_action(&mut a, &mut p, input.attack, elapsed, &mut self.trees, &mut l);
        let ghost t2 = self.trees@;
        let ghost l2 = l;

        let mut tt = self.tree_timer;
        check_tree_amount(&mut tt, elapsed, &mut self.trees);

        check_sell_action(p.x, p.y, &self.sign, input.confirm, &mut l);

        self.player = p;
        self.action = a;
        self.tree_timer = tt;
        self.ledger = l;

        proof {
            let (sx, sy) = choose|sx: i32, sy: i32|
                {
                    &&& in_lattice_x(sx as int)
                    &&& in_lattice_y(sy as int)
                    &&& (tt.0.remaining, self.trees@) == spec_replenish(
                        old(self).tree_timer.0.remaining, t2, elapsed, sx, sy,
                    )
                };
            assert(spec_tick_rel(old(self), self, *input, elapsed, sx, sy));
        }
    }
}

} // verus!
