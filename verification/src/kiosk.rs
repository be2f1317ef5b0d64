//! The sell sign: a fixed-position kiosk that, on a confirm press while the
//! player's footprint overlaps its trigger footprint, converts the whole
//! wood counter into coins at a fixed rate, atomically within the tick.

use vstd::prelude::*;
use crate::collision::boxes_overlap;
use crate::ledger::{Ledger, ResourceCounter};
use crate::player::{PLAYER_HALF_X, PLAYER_HALF_Y};

verus! {

/// Coins paid per unit of wood by the exchange.
pub const SELL_RATE: u64 = 3;

/// Half-extent of the sign's square trigger footprint, in half-pixels:
/// four fifths of a tile across, rounded to whole units.
pub const SIGN_HALF: i32 = 26;

/// The kiosk: a fixed position with a square trigger footprint; it keeps no
/// other state.
#[derive(Clone, Copy, Debug, PartialEq, Eq, Structural)]
pub struct SellSign {
    pub x: i32,
    pub y: i32,
}

/// The player's footprint at `(px, py)` overlaps the sign's trigger
/// footprint; any overlap qualifies.
pub open spec fn near_sign(px: int, py: int, sign: SellSign) -> bool {
    boxes_overlap(
        px, py, PLAYER_HALF_X as int, PLAYER_HALF_Y as int,
        sign.x as int, sign.y as int, SIGN_HALF as int, SIGN_HALF as int,
    )
}

/// The ledger after one confirm edge: in proximity, the wood counter is
/// read, three coins per wood unit are credited, and wood is zeroed, all in
/// one step; out of proximity, or without a confirm, nothing changes.
pub open spec fn spec_sell(px: int, py: int, sign: SellSign, confirm: bool, l: Ledger) -> Ledger {
    if confirm && near_sign(px, py, sign) {
        Ledger {
            coins: ResourceCounter((l.coins.0 + SELL_RATE * l.wood.0) as u64),
            wood: ResourceCounter(0),
        }
    } else {
        l
    }
}

impl SellSign {
    /// The sign as placed at startup: at the world origin.
    pub fn new() -> (s: SellSign)
        ensures
            s == (SellSign { x: 0, y: 0 }),
    {
        SellSign { x: 0, y: 0 }
    }
}

/// Whether the player currently stands in the sign's trigger footprint.
pub fn check_player_near(px: i32, py: i32, sign: &SellSign) -> (r: bool)
    ensures
        r == near_sign(px as int, py as int, *sign),
{
    let a_min_x: i64 = px as i64 - PLAYER_HALF_X as i64;
    let a_max_x: i64 = px as i64 + PLAYER_HALF_X as i64;
    let a_min_y: i64 = py as i64 - PLAYER_HALF_Y as i64;
    let a_max_y: i64 = py as i64 + PLAYER_HALF_Y as i64;
    let b_min_x: i64 = sign.x as i64 - SIGN_HALF as i64;
    let b_max_x: i64 = sign.x as i64 + SIGN_HALF as i64;
    let b_min_y: i64 = sign.y as i64 - SIGN_HALF as i64;
    let b_max_y: i64 = sign.y as i64 + SIGN_HALF as i64;
    a_min_x < b_max_x && a_max_x > b_min_x && a_min_y < b_max_y && a_max_y > b_min_y
}

/// One confirm-input edge at the kiosk: if the player is in proximity and
/// the confirm key was pressed, exchange all wood for coins at `SELL_RATE`;
/// otherwise leave both counters untouched.
pub fn check_sell_action(px: i32, py: i32, sign: &SellSign, confirm: bool, ledger: &mut Ledger)
    requires
        old(ledger).coins.0 + SELL_RATE * old(ledger).wood.0 <= u64::MAX,
    ensures
        *final(ledger) == spec_sell(px as int, py as int, *sign, confirm, *old(ledger)),
        confirm && near_sign(px as int, py as int, *sign) ==> {
            &&& final(ledger).coins.0 == old(ledger).coins.0 + SELL_RATE * old(ledger).wood.0
            &&& final(ledger).wood.0 == 0
        },
        !(confirm && near_sign(px as int, py as int, *sign)) ==> *final(ledger) == *old(ledger),
{
    if confirm && check_player_near(px, py, sign) {
        ledger.coins.0 = ledger.coins.0 + SELL_RATE * ledger.wood.0;
        ledger.wood.0 = 0;
    }
}

} // verus!
