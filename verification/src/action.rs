//! The action state machine: a strict three-state cycle `Ready` ->
//! `Perform` -> `Recover` -> `Ready`, driven by countdown timers.
//!
//! Exactly one hit-test pass runs per `Ready` -> `Perform` transition: each
//! live tree whose root footprint the player's footprint contacts laterally
//! or head-on loses the player's strength in health; trees driven to zero or
//! below leave the live set at the end of the pass, each crediting the wood
//! counter with a fixed yield. No hit-test runs while performing or
//! recovering, which is the attack cooldown.

use vstd::prelude::*;
use crate::ledger::{Ledger, ResourceCounter, ResourceId};
use crate::player::{player_can_chop_tree, player_hits_tree, Player, PlayerState};
use crate::timer::{spec_countdown, Countdown};
use crate::trees::{occupied, tree_alive, tree_in_lattice, wf_trees, Tree};

verus! {

/// Duration of the performing phase, in time-units (a fifth of a second).
pub const ACTION_DURATION: u32 = 12;

/// Duration of the recovering phase, in time-units.
pub const RECOVER_DURATION: u32 = 12;

/// Wood credited per destroyed tree.
pub const TREE_YIELD: u64 = 1;

/// The phase of the action cycle.
#[derive(Clone, Copy, Debug, PartialEq, Eq, Structural)]
pub enum ActionState {
    Perform,
    Recover,
    Ready,
}

/// The action controller owned by the player: the cycle phase and the two
/// countdowns gating its transitions.
#[derive(Clone, Copy, Debug, PartialEq, Eq, Structural)]
pub struct PlayerAction {
    pub state: ActionState,
    pub action_timer: Countdown,
    pub recover_timer: Countdown,
}

impl PlayerAction {
    /// The controller as created at startup: ready, both timers wound up.
    pub fn new() -> (a: PlayerAction)
        ensures
            a == (PlayerAction {
                state: ActionState::Ready,
                action_timer: Countdown { remaining: ACTION_DURATION },
                recover_timer: Countdown { remaining: RECOVER_DURATION },
            }),
    {
        PlayerAction {
            state: ActionState::Ready,
            action_timer: Countdown { remaining: ACTION_DURATION },
            recover_timer: Countdown { remaining: RECOVER_DURATION },
        }
    }
}

/// What one hit leaves of one tree: an unhit tree stays as it is; a hit tree
/// with health above the damage keeps its cell with exactly `damage` less
/// health; a hit tree with health at or below the damage is destroyed.
pub open spec fn chop_one(t: Tree, px: int, py: int, damage: int) -> Seq<Tree> {
    if !player_hits_tree(px, py, t) {
        seq![t]
    } else if t.health > damage {
        seq![Tree { x: t.x, y: t.y, health: (t.health - damage) as i16 }]
    } else {
        Seq::empty()
    }
}

/// The live set after one hit-test pass over every tree, removals deferred
/// to the end of the pass.
pub open spec fn chop_all(s: Seq<Tree>, px: int, py: int, damage: int) -> Seq<Tree>
    decreases s.len(),
{
    if s.len() == 0 {
        Seq::empty()
    } else {
        chop_one(s[0], px, py, damage) + chop_all(s.drop_first(), px, py, damage)
    }
}

/// How many trees one hit-test pass destroys.
pub open spec fn destroyed_count(s: Seq<Tree>, px: int, py: int, damage: int) -> int
    decreases s.len(),
{
    if s.len() == 0 {
        0
    } else {
        (if player_hits_tree(px, py, s[0]) && s[0].health <= damage { 1int } else { 0int })
            + destroyed_count(s.drop_first(), px, py, damage)
    }
}

/// Appending a tree to the pass appends its individual outcome.
proof fn lemma_chop_snoc(s: Seq<Tree>, t: Tree, px: int, py: int, damage: int)
    ensures
        chop_all(s.push(t), px, py, damage) == chop_all(s, px, py, damage) + chop_one(t, px, py, damage),
        destroyed_count(s.push(t), px, py, damage) == destroyed_count(s, px, py, damage)
            + (if player_hits_tree(px, py, t) && t.health <= damage { 1int } else { 0int }),
    decreases s.len(),
{
    if s.len() == 0 {
        assert(s.push(t).drop_first() =~= s);
        assert(s.push(t)[0] == t);
        assert(chop_all(s, px, py, damage) + chop_one(t, px, py, damage)
            =~= chop_one(t, px, py, damage) + chop_all(s, px, py, damage));
    } else {
        assert(s.push(t).drop_first() =~= s.drop_first().push(t));
        assert(s.push(t)[0] == s[0]);
        lemma_chop_snoc(s.drop_first(), t, px, py, damage);
        assert(chop_one(s[0], px, py, damage)
            + (chop_all(s.drop_first(), px, py, damage) + chop_one(t, px, py, damage))
            =~= (chop_one(s[0], px, py, damage) + chop_all(s.drop_first(), px, py, damage))
                + chop_one(t, px, py, damage));
    }
}

/// The pass destroys at most as many trees as it visits.
pub proof fn lemma_destroyed_le_len(s: Seq<Tree>, px: int, py: int, damage: int)
    ensures
        0 <= destroyed_count(s, px, py, damage) <= s.len(),
    decreases s.len(),
{
    if s.len() > 0 {
        lemma_destroyed_le_len(s.drop_first(), px, py, damage);
    }
}

/// A cell occupied after the pass was occupied before it.
proof fn lemma_chop_positions(s: Seq<Tree>, px: int, py: int, damage: int, tx: int, ty: int)
    requires
        occupied(chop_all(s, px, py, damage), tx, ty),
    ensures
        occupied(s, tx, ty),
    decreases s.len(),
{
    let r = chop_all(s, px, py, damage);
    if s.len() == 0 {
        assert(r.len() == 0);
    } else {
        let first = chop_one(s[0], px, py, damage);
        let rest = chop_all(s.drop_first(), px, py, damage);
        let i = choose|i: int| 0 <= i < r.len() && r[i].x == tx && r[i].y == ty;
        if i < first.len() {
            assert(r[i] == first[i]);
            assert(s[0].x == tx && s[0].y == ty);
            assert(occupied(s, tx, ty));
        } else {
            assert(r[i] == rest[i - first.len()]);
            assert(occupied(rest, tx, ty));
            lemma_chop_positions(s.drop_first(), px, py, damage, tx, ty);
            let j = choose|j: int| 0 <= j < s.drop_first().len()
                && s.drop_first()[j].x == tx && s.drop_first()[j].y == ty;
            assert(s.drop_first()[j] == s[j + 1]);
            assert(occupied(s, tx, ty));
        }
    }
}

/// A well-formed tree set stays well formed across a hit-test pass: the
/// survivors keep distinct in-range cells and are all alive.
proof fn lemma_chop_wf(s: Seq<Tree>, px: int, py: int, damage: int)
    requires
        wf_trees(s),
        damage >= 0,
    ensures
        wf_trees(chop_all(s, px, py, damage)),
    decreases s.len(),
{
    if s.len() > 0 {
        let rest_in = s.drop_first();
        assert forall|i: int| 0 <= i < rest_in.len() implies tree_in_lattice(#[trigger] rest_in[i])
            && tree_alive(rest_in[i]) by {
            assert(rest_in[i] == s[i + 1]);
        }
        assert forall|i: int, j: int|
            0 <= i < rest_in.len() && 0 <= j < rest_in.len() && i != j
            implies !crate::trees::same_cell(rest_in[i], rest_in[j]) by {
            assert(rest_in[i] == s[i + 1] && rest_in[j] == s[j + 1]);
        }
        lemma_chop_wf(rest_in, px, py, damage);
        let first = chop_one(s[0], px, py, damage);
        let rest = chop_all(rest_in, px, py, damage);
        let r = chop_all(s, px, py, damage);
        assert(r == first + rest);
        assert(forall|i: int| 0 <= i < first.len() ==>
            #[trigger] first[i].x == s[0].x && first[i].y == s[0].y);
        assert(forall|i: int| 0 <= i < first.len() ==>
            tree_in_lattice(#[trigger] first[i]) && tree_alive(first[i]));
        assert forall|i: int, j: int|
            0 <= i < r.len() && 0 <= j < r.len() && i != j
            implies !crate::trees::same_cell(r[i], r[j]) by {
            if i < first.len() && j < first.len() {
                // chop_one holds at most one tree
                assert(first.len() <= 1);
            } else if i < first.len() && j >= first.len() {
                if crate::trees::same_cell(r[i], r[j]) {
                    assert(r[i] == first[i]);
                    assert(r[j] == rest[j - first.len()]);
                    assert(rest[j - first.len()].x == s[0].x
                        && rest[j - first.len()].y == s[0].y);
                    assert(occupied(rest, s[0].x as int, s[0].y as int));
                    lemma_chop_positions(rest_in, px, py, damage, s[0].x as int, s[0].y as int);
                    let k = choose|k: int| 0 <= k < rest_in.len()
                        && rest_in[k].x == s[0].x && rest_in[k].y == s[0].y;
                    assert(rest_in[k] == s[k + 1]);
                    assert(crate::trees::same_cell(s[k + 1], s[0]));
                }
            } else if i >= first.len() && j < first.len() {
                if crate::trees::same_cell(r[i], r[j]) {
                    assert(r[j] == first[j]);
                    assert(r[i] == rest[i - first.len()]);
                    assert(rest[i - first.len()].x == s[0].x
                        && rest[i - first.len()].y == s[0].y);
                    assert(occupied(rest, s[0].x as int, s[0].y as int));
                    lemma_chop_positions(rest_in, px, py, damage, s[0].x as int, s[0].y as int);
                    let k = choose|k: int| 0 <= k < rest_in.len()
                        && rest_in[k].x == s[0].x && rest_in[k].y == s[0].y;
                    assert(rest_in[k] == s[k + 1]);
                    assert(crate::trees::same_cell(s[k + 1], s[0]));
                }
            } else {
                assert(r[i] == rest[i - first.len()] && r[j] == rest[j - first.len()]);
            }
        }
    }
}

/// Law: per hit-test pass, a hit tree's health strictly decreases by exactly
/// the damage value when it survives; a hit tree with health at or below the
/// damage leaves its cell empty; an unhit tree is untouched. Together with
/// well-formedness of the result (every survivor alive), no tree with health
/// at or below zero is ever seen by a later pass.
pub proof fn lemma_chop_exact_damage(s: Seq<Tree>, px: int, py: int, damage: int)
    requires
        wf_trees(s),
        damage >= 0,
    ensures
        wf_trees(chop_all(s, px, py, damage)),
        forall|i: int| 0 <= i < s.len() ==> chop_outcome(s, px, py, damage, i),
    decreases s.len(),
{
    lemma_chop_wf(s, px, py, damage);
    if s.len() > 0 {
        let rest_in = s.drop_first();
        assert forall|i: int| 0 <= i < rest_in.len() implies tree_in_lattice(#[trigger] rest_in[i])
            && tree_alive(rest_in[i]) by {
            assert(rest_in[i] == s[i + 1]);
        }
        assert forall|i: int, j: int|
            0 <= i < rest_in.len() && 0 <= j < rest_in.len() && i != j
            implies !crate::trees::same_cell(rest_in[i], rest_in[j]) by {
            assert(rest_in[i] == s[i + 1] && rest_in[j] == s[j + 1]);
        }
        lemma_chop_exact_damage(rest_in, px, py, damage);
        let first = chop_one(s[0], px, py, damage);
        let rest = chop_all(rest_in, px, py, damage);
        let r = chop_all(s, px, py, damage);
        assert(r == first + rest);
        assert forall|i: int| 0 <= i < s.len() implies chop_outcome(s, px, py, damage, i) by {
            let t = s[i];
            if i == 0 {
                if player_hits_tree(px, py, t) && t.health <= damage {
                    // the destroyed tree's cell is free: nothing in `rest`
                    // sits there either, by distinctness of the input cells
                    assert(first.len() == 0);
                    if occupied(r, t.x as int, t.y as int) {
                        assert(r =~= rest);
                        lemma_chop_positions(rest_in, px, py, damage, t.x as int, t.y as int);
                        let k = choose|k: int| 0 <= k < rest_in.len()
                            && rest_in[k].x == t.x && rest_in[k].y == t.y;
                        assert(rest_in[k] == s[k + 1]);
                        assert(crate::trees::same_cell(s[k + 1], s[0]));
                    }
                } else {
                    assert(first.len() == 1);
                    assert(r[0] == first[0]);
                    assert(r.contains(first[0]));
                }
            } else {
                assert(rest_in[i - 1] == t);
                assert(chop_outcome(rest_in, px, py, damage, i - 1));
                if player_hits_tree(px, py, t) && t.health <= damage {
                    if occupied(r, t.x as int, t.y as int) {
                        let k = choose|k: int| 0 <= k < r.len()
                            && r[k].x == t.x && r[k].y == t.y;
                        if k < first.len() {
                            assert(first[k].x == s[0].x && first[k].y == s[0].y);
                            assert(crate::trees::same_cell(s[0], s[i]));
                        } else {
                            assert(rest[k - first.len()].x == t.x
                                && rest[k - first.len()].y == t.y);
                            assert(occupied(rest, t.x as int, t.y as int));
                        }
                    }
                } else {
                    let u = if player_hits_tree(px, py, t) {
                        Tree { x: t.x, y: t.y, health: (t.health - damage) as i16 }
                    } else {
                        t
                    };
                    assert(rest.contains(u));
                    let k = choose|k: int| 0 <= k < rest.len() && rest[k] == u;
                    assert(r[first.len() + k] == u);
                    assert(r.contains(u));
                }
            }
        }
    }
}

/// The per-tree outcome of a hit-test pass, as seen in the resulting set.
pub open spec fn chop_outcome(s: Seq<Tree>, px: int, py: int, damage: int, i: int) -> bool {
    let t = s[i];
    let r = chop_all(s, px, py, damage);
    &&& (player_hits_tree(px, py, t) && t.health > damage
        ==> r.contains(Tree { x: t.x, y: t.y, health: (t.health - damage) as i16 }))
    &&& (player_hits_tree(px, py, t) && t.health <= damage
        ==> !occupied(r, t.x as int, t.y as int))
    &&& (!player_hits_tree(px, py, t) ==> r.contains(t))
}

/// One full hit-test pass from the given position: damage every tree whose
/// root the player contacts, defer removals to the end of the pass, and
/// report how many trees were destroyed.
pub fn chop_trees(px: i32, py: i32, strength: u32, trees: &mut Vec<Tree>) -> (destroyed: u64)
    requires
        wf_trees(old(trees)@),
    ensures
        final(trees)@ == chop_all(old(trees)@, px as int, py as int, strength as int),
        destroyed as int == destroyed_count(old(trees)@, px as int, py as int, strength as int),
        destroyed as int <= old(trees)@.len(),
        wf_trees(final(trees)@),
{
    let ghost orig = trees@;
    let mut out: Vec<Tree> = Vec::new();
    let mut destroyed: u64 = 0;
    let mut i: usize = 0;
    while i < trees.len()
        invariant
            0 <= i <= trees@.len(),
            trees@ == orig,
            wf_trees(orig),
            out@ == chop_all(orig.subrange(0, i as int), px as int, py as int, strength as int),
            destroyed as int == destroyed_count(orig.subrange(0, i as int), px as int, py as int, strength as int),
            destroyed as int <= i,
        decreases trees@.len() - i,
    {
        let ghost prefix = orig.subrange(0, i as int);
        let t = trees[i];
        proof {
            assert(orig.subrange(0, i as int + 1) =~= prefix.push(orig[i as int]));
            lemma_chop_snoc(prefix, orig[i as int], px as int, py as int, strength as int);
        }
        if player_can_chop_tree(px, py, &t) {
            let nh: i64 = t.health as i64 - strength as i64;
            if nh >= 1 {
                let u = Tree { x: t.x, y: t.y, health: nh as i16 };
                out.push(u);
                proof {
                    assert(chop_one(orig[i as int], px as int, py as int, strength as int)
                        =~= seq![u]);
                    assert(out@ =~= chop_all(prefix, px as int, py as int, strength as int)
                        + chop_one(orig[i as int], px as int, py as int, strength as int));
                }
            } else {
                destroyed = destroyed + 1;
                proof {
                    assert(chop_one(orig[i as int], px as int, py as int, strength as int)
                        =~= Seq::<Tree>::empty());
                    assert(out@ =~= chop_all(prefix, px as int, py as int, strength as int)
                        + chop_one(orig[i as int], px as int, py as int, strength as int));
                }
            }
        } else {
            out.push(t);
            proof {
                assert(chop_one(orig[i as int], px as int, py as int, strength as int)
                    =~= seq![t]);
                assert(out@ =~= chop_all(prefix, px as int, py as int, strength as int)
                    + chop_one(orig[i as int], px as int, py as int, strength as int));
            }
        }
        i = i + 1;
    }
    proof {
        assert(orig.subrange(0, orig.len() as int) =~= orig);
        lemma_chop_wf(orig, px as int, py as int, strength as int);
    }
    *trees = out;
    destroyed
}

/// The state, player, tree set and ledger after one step of the action
/// system. In `Perform` the performing timer advances; on completion the
/// phase moves to `Recover`, the timer rewinds, and the player's phase drops
/// back to standing. In `Recover` the recovering timer advances; on
/// completion the phase moves to `Ready`. In `Ready`, an attack press sets
/// the player chopping, moves the phase to `Perform`, and runs exactly one
/// hit-test pass, crediting the wood counter with the yield of every
/// destroyed tree; without a press nothing changes.
pub open spec fn spec_action(
    a: PlayerAction, p: Player, attack: bool, elapsed: u32, trees: Seq<Tree>, l: Ledger,
) -> (PlayerAction, Player, Seq<Tree>, Ledger) {
    match a.state {
        ActionState::Perform => {
            let rem = spec_countdown(a.action_timer.remaining, elapsed);
            if rem == 0 {
                (
                    PlayerAction {
                        state: ActionState::Recover,
                        action_timer: Countdown { remaining: ACTION_DURATION },
                        recover_timer: a.recover_timer,
                    },
                    Player { state: PlayerState::Stand(p.facing), ..p },
                    trees,
                    l,
                )
            } else {
                (
                    PlayerAction {
                        state: ActionState::Perform,
                        action_timer: Countdown { remaining: rem },
                        recover_timer: a.recover_timer,
                    },
                    p,
                    trees,
                    l,
                )
            }
        }
        ActionState::Recover => {
            let rem = spec_countdown(a.recover_timer.remaining, elapsed);
            if rem == 0 {
                (
                    PlayerAction {
                        state: ActionState::Ready,
                        action_timer: a.action_timer,
                        recover_timer: Countdown { remaining: RECOVER_DURATION },
                    },
                    p,
                    trees,
                    l,
                )
            } else {
                (
                    PlayerAction {
                        state: ActionState::Recover,
                        action_timer: a.action_timer,
                        recover_timer: Countdown { remaining: rem },
                    },
                    p,
                    trees,
                    l,
                )
            }
        }
        ActionState::Ready => {
            if attack {
                (
                    PlayerAction { state: ActionState::Perform, ..a },
                    Player { state: PlayerState::Chop(p.facing), ..p },
                    chop_all(trees, p.x as int, p.y as int, p.strength.0 as int),
                    Ledger {
                        coins: l.coins,
                        wood: ResourceCounter((l.wood.0
                            + TREE_YIELD * destroyed_count(
                                trees, p.x as int, p.y as int, p.strength.0 as int,
                            )) as u64),
                    },
                )
            } else {
                (a, p, trees, l)
            }
        }
    }
}

/// One step of the action system; see `spec_action` for the transition it
/// implements. Returns how many trees this step destroyed — the transient
/// signal a despawn-effect layer would consume; it is nonzero only on the
/// `Ready` -> `Perform` transition.
pub fn player_action(
    action: &mut PlayerAction,
    player: &mut Player,
    attack_pressed: bool,
    elapsed: u32,
    trees: &mut Vec<Tree>,
    ledger: &mut Ledger,
) -> (destroyed: u64)
    requires
        wf_trees(old(trees)@),
        old(ledger).wood.0 + TREE_YIELD * old(trees)@.len() <= u64::MAX,
    ensures
        ({
            let r = spec_action(
                *old(action), *old(player), attack_pressed, elapsed, old(trees)@, *old(ledger),
            );
            &&& *final(action) == r.0
            &&& *final(player) == r.1
            &&& final(trees)@ == r.2
            &&& *final(ledger) == r.3
        }),
        destroyed as int == (if old(action).state is Ready && attack_pressed {
            destroyed_count(
                old(trees)@,
                old(player).x as int,
                old(player).y as int,
                old(player).strength.0 as int,
            )
        } else {
            0
        }),
        wf_trees(final(trees)@),
{
    match action.state {
        ActionState::Perform => {
            let done = action.action_timer.tick(elapsed);
            if done {
                action.state = ActionState::Recover;
                action.action_timer.reset(ACTION_DURATION);
                player.state = PlayerState::Stand(player.facing);
            }
            0
        }
        ActionState::Recover => {
            let done = action.recover_timer.tick(elapsed);
            if done {
                action.state = ActionState::Ready;
                action.recover_timer.reset(RECOVER_DURATION);
            }
            0
        }
        ActionState::Ready => {
            if attack_pressed {
                player.state = PlayerState::Chop(player.facing);
                action.state = ActionState::Perform;
                proof {
                    lemma_destroyed_le_len(
                        trees@, player.x as int, player.y as int, player.strength.0 as int,
                    );
                }
                let destroyed = chop_trees(player.x, player.y, player.strength.0, trees);
                ledger.credit(ResourceId::Wood, TREE_YIELD * destroyed);
                destroyed
            } else {
                0
            }
        }
    }
}

/// Law: the action phase strictly cycles. From `Ready` it moves to `Perform`
/// exactly on an attack press; from `Perform` it can only stay or move to
/// `Recover`; from `Recover` it can only stay or move to `Ready`. No phase
/// is ever skipped.
pub proof fn lemma_action_cycle(
    a: PlayerAction, p: Player, attack: bool, elapsed: u32, trees: Seq<Tree>, l: Ledger,
)
    ensures
        ({
            let next = spec_action(a, p, attack, elapsed, trees, l).0.state;
            &&& (a.state is Ready ==> (next is Perform <==> attack) && (next is Ready <==> !attack))
            &&& (a.state is Perform ==> next is Perform || next is Recover)
            &&& (a.state is Recover ==> next is Recover || next is Ready)
        }),
{
}

/// Law: no hit-test executes outside the `Ready` -> `Perform` transition.
/// While the phase is `Perform` or `Recover`, or without an attack press,
/// the tree set and the ledger come out exactly as they went in.
pub proof fn lemma_no_hit_outside_ready(
    a: PlayerAction, p: Player, attack: bool, elapsed: u32, trees: Seq<Tree>, l: Ledger,
)
    requires
        !(a.state is Ready && attack),
    ensures
        spec_action(a, p, attack, elapsed, trees, l).2 == trees,
        spec_action(a, p, attack, elapsed, trees, l).3 == l,
{
}

} // verus!
