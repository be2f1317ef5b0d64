//! The player: position, facing, phase, and per-axis movement with
//! collision resolution against the tree set.
//!
//! Movement resolves the vertical axis first and the horizontal axis second,
//! each independently: a candidate position on one axis is accepted exactly
//! when it stays strictly inside the world bounds and its footprint overlaps
//! no tree's full footprint. Because the axes are resolved independently,
//! diagonal input against an obstacle blocking a single axis still slides
//! the player along the open axis. While the player is mid-chop, movement
//! input neither moves the player nor changes the phase.

use vstd::prelude::*;
use crate::collision::{
    boxes_overlap, is_valid_hit, overlaps, spec_side, spec_valid_hit, Footprint,
};
use crate::grid::{in_world_x, in_world_y, TILE_SIZE, WORLD_BOUND_X, WORLD_BOUND_Y};
use crate::trees::{
    tree_in_lattice, Tree, TREE_HALF_X, TREE_HALF_Y, TREE_ROOT_HALF_X, TREE_ROOT_HALF_Y,
    TREE_ROOT_OFFSET_Y,
};

verus! {

/// Half-extents of the player's footprint (9 x 12 pixels), in half-pixels.
pub const PLAYER_HALF_X: i32 = 9;
pub const PLAYER_HALF_Y: i32 = 12;

/// Movement speed, in half-pixel units per time-unit; one time-unit is a
/// sixtieth of a second, so this is just under three tiles per second.
pub const PLAYER_SPEED: u16 = 3;

/// Damage the player inflicts on a tree per valid hit.
pub const PLAYER_STRENGTH: u32 = 40;

/// A facing direction. Only `Left` and `Right` ever become the stored
/// facing: vertical movement does not change it.
#[derive(Clone, Copy, Debug, PartialEq, Eq, Structural)]
pub enum Direction {
    Up,
    Down,
    Right,
    Left,
}

/// The player's phase, each variant parameterized by a direction.
#[derive(Clone, Copy, Debug, PartialEq, Eq, Structural)]
pub enum PlayerState {
    Stand(Direction),
    Move(Direction),
    Chop(Direction),
}

/// Movement speed scalar.
#[derive(Clone, Copy, Debug, PartialEq, Eq, Structural)]
pub struct Speed(pub u16);

/// Damage the player inflicts per valid hit.
#[derive(Clone, Copy, Debug, PartialEq, Eq, Structural)]
pub struct Strength(pub u32);

/// The state of the direction keys during one tick.
#[derive(Clone, Copy, Debug, PartialEq, Eq, Structural)]
pub struct MoveKeys {
    pub up: bool,
    pub down: bool,
    pub left: bool,
    pub right: bool,
}

/// The player: the single actor of the session.
#[derive(Clone, Copy, Debug, PartialEq, Eq, Structural)]
pub struct Player {
    /// Position, in half-pixel world units.
    pub x: i32,
    pub y: i32,
    /// Facing; always `Left` or `Right`.
    pub facing: Direction,
    /// Current phase.
    pub state: PlayerState,
    pub speed: Speed,
    pub strength: Strength,
}

/// The facing is one of the two horizontal directions.
pub open spec fn facing_horizontal(d: Direction) -> bool {
    d is Left || d is Right
}

/// Player well-formedness: the stored facing is horizontal.
pub open spec fn wf_player(p: Player) -> bool {
    facing_horizontal(p.facing)
}

/// The player's footprint at the given position overlaps the tree's full
/// footprint.
pub open spec fn player_overlaps_tree(px: int, py: int, t: Tree) -> bool {
    boxes_overlap(
        px, py, PLAYER_HALF_X as int, PLAYER_HALF_Y as int,
        t.x * TILE_SIZE, t.y * TILE_SIZE, TREE_HALF_X as int, TREE_HALF_Y as int,
    )
}

/// The player's footprint at the given position contacts the tree's root
/// footprint laterally or head-on, which is what a chop requires. The root
/// box sits `TREE_ROOT_OFFSET_Y` below the trunk's lattice position.
pub open spec fn player_hits_tree(px: int, py: int, t: Tree) -> bool {
    spec_valid_hit(spec_side(
        px, py, PLAYER_HALF_X as int, PLAYER_HALF_Y as int,
        t.x * TILE_SIZE, t.y * TILE_SIZE + TREE_ROOT_OFFSET_Y,
        TREE_ROOT_HALF_X as int, TREE_ROOT_HALF_Y as int,
    ))
}

/// Some tree of the set blocks the player's footprint at this position.
pub open spec fn blocked(px: int, py: int, s: Seq<Tree>) -> bool {
    exists|i: int| 0 <= i < s.len() && player_overlaps_tree(px, py, #[trigger] s[i])
}

/// Signed vertical movement intent: up minus down, scaled by speed and
/// elapsed time.
pub open spec fn y_intent(keys: MoveKeys, speed: u16, elapsed: u32) -> int {
    (if keys.up { speed as int * elapsed as int } else { 0 })
        - (if keys.down { speed as int * elapsed as int } else { 0 })
}

/// Signed horizontal movement intent: right minus left.
pub open spec fn x_intent(keys: MoveKeys, speed: u16, elapsed: u32) -> int {
    (if keys.right { speed as int * elapsed as int } else { 0 })
        - (if keys.left { speed as int * elapsed as int } else { 0 })
}

/// A vertical candidate is accepted: in bounds and colliding with no tree.
pub open spec fn y_move_allowed(x: int, ycand: int, s: Seq<Tree>) -> bool {
    in_world_y(ycand) && !blocked(x, ycand, s)
}

/// A horizontal candidate is accepted: in bounds and colliding with no tree.
pub open spec fn x_move_allowed(xcand: int, y: int, s: Seq<Tree>) -> bool {
    in_world_x(xcand) && !blocked(xcand, y, s)
}

/// The outcome of one movement tick: vertical axis resolved first, then the
/// horizontal axis against the possibly-updated position. Each axis keeps
/// its old value unless its candidate passes the bound and collision check.
/// Acceptance of a horizontal move turns the facing to the moved-to side;
/// phase becomes `Move` of the last accepted axis' direction, else `Stand`.
/// A chopping player is left entirely unchanged.
pub open spec fn spec_move(p: Player, keys: MoveKeys, elapsed: u32, s: Seq<Tree>) -> Player {
    if p.state is Chop {
        p
    } else {
        let yd = y_intent(keys, p.speed.0, elapsed);
        let xd = x_intent(keys, p.speed.0, elapsed);
        let y_moves = yd != 0 && y_move_allowed(p.x as int, p.y + yd, s);
        let y1 = if y_moves { p.y + yd } else { p.y as int };
        let x_moves = xd != 0 && x_move_allowed(p.x + xd, y1, s);
        let x1 = if x_moves { p.x + xd } else { p.x as int };
        let facing1 = if x_moves {
            if xd > 0 { Direction::Right } else { Direction::Left }
        } else {
            p.facing
        };
        let state1 = if x_moves {
            PlayerState::Move(facing1)
        } else if y_moves {
            PlayerState::Move(if yd > 0 { Direction::Up } else { Direction::Down })
        } else {
            PlayerState::Stand(p.facing)
        };
        Player {
            x: x1 as i32,
            y: y1 as i32,
            facing: facing1,
            state: state1,
            speed: p.speed,
            strength: p.strength,
        }
    }
}

impl Player {
    /// The player as created at startup: at the world origin, standing and
    /// facing right, with the fixed speed and strength.
    pub fn new() -> (p: Player)
        ensures
            p == (Player {
                x: 0,
                y: 0,
                facing: Direction::Right,
                state: PlayerState::Stand(Direction::Right),
                speed: Speed(PLAYER_SPEED),
                strength: Strength(PLAYER_STRENGTH),
            }),
            wf_player(p),
    {
        Player {
            x: 0,
            y: 0,
            facing: Direction::Right,
            state: PlayerState::Stand(Direction::Right),
            speed: Speed(PLAYER_SPEED),
            strength: Strength(PLAYER_STRENGTH),
        }
    }
}

/// Whether the player's footprint at `(px, py)` collides with any tree's
/// full footprint.
pub fn tree_collision(px: i32, py: i32, trees: &Vec<Tree>) -> (r: bool)
    requires
        forall|i: int| 0 <= i < trees@.len() ==> tree_in_lattice(#[trigger] trees@[i]),
    ensures
        r == blocked(px as int, py as int, trees@),
{
    let pf = Footprint { cx: px, cy: py, hx: PLAYER_HALF_X, hy: PLAYER_HALF_Y };
    let mut i: usize = 0;
    while i < trees.len()
        invariant
            0 <= i <= trees@.len(),
            forall|k: int| 0 <= k < trees@.len() ==> tree_in_lattice(#[trigger] trees@[k]),
            pf == (Footprint { cx: px, cy: py, hx: PLAYER_HALF_X, hy: PLAYER_HALF_Y }),
            forall|k: int| 0 <= k < i ==> !player_overlaps_tree(px as int, py as int, #[trigger] trees@[k]),
        decreases trees@.len() - i,
    {
        let t = trees[i];
        let tf = Footprint {
            cx: t.x * TILE_SIZE,
            cy: t.y * TILE_SIZE,
            hx: TREE_HALF_X,
            hy: TREE_HALF_Y,
        };
        if overlaps(&pf, &tf).is_some() {
            assert(player_overlaps_tree(px as int, py as int, trees@[i as int]));
            return true;
        }
        i = i + 1;
    }
    false
}

/// Whether a chop from `(px, py)` registers on the given tree: the player's
/// footprint must contact the tree's root footprint on its left or right
/// side, or lie inside it.
pub fn player_can_chop_tree(px: i32, py: i32, t: &Tree) -> (r: bool)
    requires
        tree_in_lattice(*t),
    ensures
        r == player_hits_tree(px as int, py as int, *t),
{
    let pf = Footprint { cx: px, cy: py, hx: PLAYER_HALF_X, hy: PLAYER_HALF_Y };
    let rf = Footprint {
        cx: t.x * TILE_SIZE,
        cy: t.y * TILE_SIZE + TREE_ROOT_OFFSET_Y,
        hx: TREE_ROOT_HALF_X,
        hy: TREE_ROOT_HALF_Y,
    };
    let side = overlaps(&pf, &rf);
    is_valid_hit(&side)
}

/// One movement tick: consume the direction keys, resolve the vertical axis
/// and then the horizontal axis, each against the world bounds and the tree
/// set, and update position, facing and phase accordingly.
pub fn player_movement(player: &mut Player, keys: &MoveKeys, elapsed: u32, trees: &Vec<Tree>)
    requires
        forall|i: int| 0 <= i < trees@.len() ==> tree_in_lattice(#[trigger] trees@[i]),
    ensures
        *final(player) == spec_move(*old(player), *keys, elapsed, trees@),
{
    match player.state {
        PlayerState::Chop(_) => {
            return;
        }
        _ => {}
    }

    let sp: i64 = player.speed.0 as i64;
    let el: i64 = elapsed as i64;
    assert(0 <= sp * el <= 65535i64 * 4294967295i64) by (nonlinear_arith)
        requires
            0 <= sp <= 65535,
            0 <= el <= 4294967295,
    ;
    let step: i64 = sp * el;
    let mut yd: i64 = 0;
    if keys.up {
        yd = yd + step;
    }
    if keys.down {
        yd = yd - step;
    }
    let mut xd: i64 = 0;
    if keys.right {
        xd = xd + step;
    }
    if keys.left {
        xd = xd - step;
    }
    assert(yd == y_intent(*keys, old(player).speed.0, elapsed));
    assert(xd == x_intent(*keys, old(player).speed.0, elapsed));

    let mut y_moves: bool = false;
    let y_cand: i64 = player.y as i64 + yd;
    if yd != 0 && -(WORLD_BOUND_Y as i64) < y_cand && y_cand < WORLD_BOUND_Y as i64 {
        if !tree_collision(player.x, y_cand as i32, trees) {
            y_moves = true;
        }
    }
    if y_moves {
        player.y = y_cand as i32;
    }

    let mut x_moves: bool = false;
    let x_cand: i64 = player.x as i64 + xd;
    if xd != 0 && -(WORLD_BOUND_X as i64) < x_cand && x_cand < WORLD_BOUND_X as i64 {
        if !tree_collision(x_cand as i32, player.y, trees) {
            x_moves = true;
        }
    }
    if x_moves {
        player.x = x_cand as i32;
        player.facing = if xd > 0 { Direction::Right } else { Direction::Left };
    }

    if x_moves {
        player.state = PlayerState::Move(player.facing);
    } else if y_moves {
        player.state = PlayerState::Move(if yd > 0 { Direction::Up } else { Direction::Down });
    } else {
        player.state = PlayerState::Stand(player.facing);
    }
}

/// Law: for any movement attempt, each axis of the resulting position is,
/// independently, either the pre-tick value or the candidate that passed
/// the bound and collision check on that axis; a candidate that fails its
/// check is never taken.
pub proof fn lemma_movement_per_axis(p: Player, keys: MoveKeys, elapsed: u32, s: Seq<Tree>)
    ensures
        ({
            let q = spec_move(p, keys, elapsed, s);
            let yd = y_intent(keys, p.speed.0, elapsed);
            let xd = x_intent(keys, p.speed.0, elapsed);
            &&& (q.y == p.y || (q.y == p.y + yd && y_move_allowed(p.x as int, p.y + yd, s)))
            &&& (q.x == p.x || (q.x == p.x + xd && x_move_allowed(p.x + xd, q.y as int, s)))
        }),
{
    let q = spec_move(p, keys, elapsed, s);
    let yd = y_intent(keys, p.speed.0, elapsed);
    let xd = x_intent(keys, p.speed.0, elapsed);
    if !(p.state is Chop) {
        if yd != 0 && y_move_allowed(p.x as int, p.y + yd, s) {
            assert(in_world_y(p.y + yd));
            assert(q.y == p.y + yd);
        }
        let y1 = if yd != 0 && y_move_allowed(p.x as int, p.y + yd, s) { p.y + yd } else { p.y as int };
        if xd != 0 && x_move_allowed(p.x + xd, y1, s) {
            assert(in_world_x(p.x + xd));
            assert(q.x == p.x + xd);
        }
    }
}

/// Law: the axes are resolved independently, so diagonal input against an
/// obstacle that blocks only one axis still moves the player along the
/// other, unblocked axis (the slide property).
pub proof fn lemma_diagonal_slide(p: Player, keys: MoveKeys, elapsed: u32, s: Seq<Tree>)
    requires
        !(p.state is Chop),
    ensures
        ({
            let q = spec_move(p, keys, elapsed, s);
            let yd = y_intent(keys, p.speed.0, elapsed);
            let xd = x_intent(keys, p.speed.0, elapsed);
            &&& (yd != 0 && y_move_allowed(p.x as int, p.y + yd, s) ==> q.y == p.y + yd)
            &&& (xd != 0 && x_move_allowed(p.x + xd, q.y as int, s) ==> q.x == p.x + xd)
        }),
{
    let q = spec_move(p, keys, elapsed, s);
    let yd = y_intent(keys, p.speed.0, elapsed);
    let xd = x_intent(keys, p.speed.0, elapsed);
    if yd != 0 && y_move_allowed(p.x as int, p.y + yd, s) {
        assert(in_world_y(p.y + yd));
    }
    let y1 = if yd != 0 && y_move_allowed(p.x as int, p.y + yd, s) { p.y + yd } else { p.y as int };
    assert(q.y == y1);
    if xd != 0 && x_move_allowed(p.x + xd, y1, s) {
        assert(in_world_x(p.x + xd));
    }
}

} // verus!
