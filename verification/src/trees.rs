//! Trees: the obstacles of the world.
//!
//! A tree sits on a lattice cell and carries a health count. Its full
//! footprint blocks movement; a narrower root footprint, centered on the
//! trunk, is what a chop must contact. The live set of trees is well formed
//! when every tree sits on a distinct in-range lattice cell with positive
//! health.

use vstd::prelude::*;
use crate::grid::{in_lattice_x, in_lattice_y};

verus! {

/// Population cap of the obstacle spawner.
pub const TREE_AMOUNT: usize = 20;

/// Health of a freshly spawned tree.
pub const TREE_HEALTH: i16 = 100;

/// Half-extents of a tree's full footprint (23 x 32 pixels), in half-pixels.
pub const TREE_HALF_X: i32 = 23;
pub const TREE_HALF_Y: i32 = 32;

/// Half-extents of a tree's root footprint (12 x 5 pixels), in half-pixels.
pub const TREE_ROOT_HALF_X: i32 = 12;
pub const TREE_ROOT_HALF_Y: i32 = 5;

/// Vertical offset of the root footprint's center from the trunk's lattice
/// position: the root sits 11 pixels below the center of the sprite.
pub const TREE_ROOT_OFFSET_Y: i32 = -22;

/// An obstacle: a lattice cell and its remaining health.
#[derive(Clone, Copy, Debug, PartialEq, Eq, Structural)]
pub struct Tree {
    /// Lattice column of the trunk.
    pub x: i32,
    /// Lattice row of the trunk.
    pub y: i32,
    /// Remaining health; a live tree always has at least 1.
    pub health: i16,
}

/// The tree sits on a lattice cell inside the world grid.
pub open spec fn tree_in_lattice(t: Tree) -> bool {
    in_lattice_x(t.x as int) && in_lattice_y(t.y as int)
}

/// The tree counts as live.
pub open spec fn tree_alive(t: Tree) -> bool {
    t.health >= 1
}

/// Two trees occupy the same lattice cell.
pub open spec fn same_cell(a: Tree, b: Tree) -> bool {
    a.x == b.x && a.y == b.y
}

/// Some tree of the set occupies the given lattice cell.
pub open spec fn occupied(s: Seq<Tree>, tx: int, ty: int) -> bool {
    exists|i: int| 0 <= i < s.len() && s[i].x == tx && s[i].y == ty
}

/// No two trees of the set share a lattice cell.
pub open spec fn distinct_cells(s: Seq<Tree>) -> bool {
    forall|i: int, j: int|
        0 <= i < s.len() && 0 <= j < s.len() && i != j ==> !same_cell(s[i], s[j])
}

/// Well-formedness of the live obstacle set: distinct in-range cells, all
/// trees alive.
pub open spec fn wf_trees(s: Seq<Tree>) -> bool {
    &&& distinct_cells(s)
    &&& forall|i: int| 0 <= i < s.len() ==> tree_in_lattice(#[trigger] s[i])
    &&& forall|i: int| 0 <= i < s.len() ==> tree_alive(#[trigger] s[i])
}

/// Adding a tree on a free in-range cell keeps the set well formed.
pub proof fn lemma_wf_push(s: Seq<Tree>, t: Tree)
    requires
        wf_trees(s),
        !occupied(s, t.x as int, t.y as int),
        tree_in_lattice(t),
        tree_alive(t),
    ensures
        wf_trees(s.push(t)),
{
    let s2 = s.push(t);
    assert forall|i: int, j: int|
        0 <= i < s2.len() && 0 <= j < s2.len() && i != j
        implies !same_cell(s2[i], s2[j]) by {
        if i < s.len() && j < s.len() {
            assert(s2[i] == s[i] && s2[j] == s[j]);
        } else if i == s.len() {
            assert(s2[i] == t && s2[j] == s[j]);
            if same_cell(s2[i], s2[j]) {
                assert(s[j].x == t.x && s[j].y == t.y);
                assert(occupied(s, t.x as int, t.y as int));
            }
        } else {
            assert(s2[j] == t && s2[i] == s[i]);
            if same_cell(s2[i], s2[j]) {
                assert(s[i].x == t.x && s[i].y == t.y);
                assert(occupied(s, t.x as int, t.y as int));
            }
        }
    }
    assert forall|i: int| 0 <= i < s2.len() implies tree_in_lattice(#[trigger] s2[i])
        && tree_alive(s2[i]) by {
        if i < s.len() {
            assert(s2[i] == s[i]);
        } else {
            assert(s2[i] == t);
        }
    }
}

/// Whether some live tree already occupies the given lattice cell.
pub fn check_tree_position(tx: i32, ty: i32, trees: &Vec<Tree>) -> (r: bool)
    ensures
        r == occupied(trees@, tx as int, ty as int),
{
    let mut i: usize = 0;
    while i < trees.len()
        invariant
            0 <= i <= trees@.len(),
            !occupied(trees@.subrange(0, i as int), tx as int, ty as int),
        decreases trees@.len() - i,
    {
        if trees[i].x == tx && trees[i].y == ty {
            assert(trees@[i as int].x == tx && trees@[i as int].y == ty);
            return true;
        }
        assert(trees@.subrange(0, i as int + 1) =~= trees@.subrange(0, i as int).push(trees@[i as int]));
        i = i + 1;
    }
    assert(trees@.subrange(0, trees@.len() as int) =~= trees@);
    false
}

} // verus!
