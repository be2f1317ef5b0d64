use lumberjack::action::{player_action, PlayerAction};
use lumberjack::kiosk::{check_player_near, check_sell_action, SellSign};
use lumberjack::ledger::{Ledger, ResourceCounter, ResourceId};
use lumberjack::player::Player;
use lumberjack::trees::Tree;

#[test]
fn credit_adds_to_one_counter_only() {
    let mut l = Ledger::new();
    l.credit(ResourceId::Coin, 5);
    assert_eq!(l.coins.0, 5);
    assert_eq!(l.wood.0, 0);
    l.credit(ResourceId::Wood, 7);
    assert_eq!(l.coins.0, 5);
    assert_eq!(l.wood.0, 7);
    assert_eq!(l.value(ResourceId::Coin), 5);
    assert_eq!(l.value(ResourceId::Wood), 7);
}

#[test]
fn proximity_is_the_trigger_footprint_overlap() {
    // the trigger spans 26 half-pixels and the player 9, so overlap ends
    // exactly at a distance of 35
    let sign = SellSign::new();
    assert!(check_player_near(0, 0, &sign));
    assert!(check_player_near(34, 0, &sign));
    assert!(!check_player_near(35, 0, &sign));
    assert!(!check_player_near(100, 0, &sign));
}

#[test]
fn confirmed_exchange_in_proximity_converts_all_wood() {
    let sign = SellSign::new();
    let mut l = Ledger { coins: ResourceCounter(10), wood: ResourceCounter(4) };
    check_sell_action(0, 0, &sign, true, &mut l);
    assert_eq!(l.coins.0, 22);
    assert_eq!(l.wood.0, 0);
}

#[test]
fn exchange_out_of_proximity_changes_nothing() {
    let sign = SellSign::new();
    let mut l = Ledger { coins: ResourceCounter(10), wood: ResourceCounter(4) };
    check_sell_action(100, 0, &sign, true, &mut l);
    assert_eq!(l.coins.0, 10);
    assert_eq!(l.wood.0, 4);
}

#[test]
fn no_confirm_edge_changes_nothing_even_in_proximity() {
    let sign = SellSign::new();
    let mut l = Ledger { coins: ResourceCounter(10), wood: ResourceCounter(4) };
    check_sell_action(0, 0, &sign, false, &mut l);
    assert_eq!(l.coins.0, 10);
    assert_eq!(l.wood.0, 4);
}

#[test]
fn exchange_with_empty_wood_counter_is_harmless() {
    let sign = SellSign::new();
    let mut l = Ledger::new();
    check_sell_action(0, 0, &sign, true, &mut l);
    assert_eq!(l.coins.0, 0);
    assert_eq!(l.wood.0, 0);
}

#[test]
fn felled_tree_yield_sells_for_three_coins() {
    // destroy a one-hit tree from beside its trunk, then confirm back at
    // the kiosk: the single wood unit becomes three coins and the wood
    // counter drops to zero
    let mut action = PlayerAction::new();
    let mut player = Player::new();
    player.x = 44;
    player.y = -22;
    let mut trees = vec![Tree { x: 1, y: 0, health: 40 }];
    let mut ledger = Ledger::new();
    player_action(&mut action, &mut player, true, 1, &mut trees, &mut ledger);
    assert!(trees.is_empty());
    assert_eq!(ledger.wood.0, 1);
    assert_eq!(ledger.coins.0, 0);

    let sign = SellSign::new();
    check_sell_action(0, 0, &sign, true, &mut ledger);
    assert_eq!(ledger.coins.0, 3);
    assert_eq!(ledger.wood.0, 0);
}
