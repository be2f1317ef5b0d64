use lumberjack::action::{
    chop_trees, player_action, ActionState, PlayerAction, ACTION_DURATION, RECOVER_DURATION,
};
use lumberjack::ledger::Ledger;
use lumberjack::player::{Direction, Player, PlayerState};
use lumberjack::trees::Tree;

fn one_tree() -> Vec<Tree> {
    Vec::from([Tree { x: 1, y: 0, health: 100 }])
}

/// A player standing beside the trunk of the tree on cell (1, 0), level
/// with its root footprint, so that a chop registers.
fn chopper() -> Player {
    let mut p = Player::new();
    p.x = 44;
    p.y = -22;
    p
}

#[test]
fn attack_edge_starts_the_cycle_and_damages_the_tree() {
    let mut action = PlayerAction::new();
    let mut player = chopper();
    let mut trees = one_tree();
    let mut ledger = Ledger::new();
    player_action(&mut action, &mut player, true, 1, &mut trees, &mut ledger);
    assert_eq!(action.state, ActionState::Perform);
    assert_eq!(player.state, PlayerState::Chop(Direction::Right));
    assert_eq!(trees.len(), 1);
    assert_eq!(trees[0].health, 60);
    assert_eq!(ledger.wood.0, 0);
}

#[test]
fn no_attack_edge_leaves_everything_unchanged() {
    let mut action = PlayerAction::new();
    let mut player = chopper();
    let mut trees = one_tree();
    let mut ledger = Ledger::new();
    player_action(&mut action, &mut player, false, 5, &mut trees, &mut ledger);
    assert_eq!(action.state, ActionState::Ready);
    assert_eq!(player.state, PlayerState::Stand(Direction::Right));
    assert_eq!(trees[0].health, 100);
}

#[test]
fn phase_cycles_ready_perform_recover_ready() {
    let mut action = PlayerAction::new();
    let mut player = Player::new();
    let mut trees: Vec<Tree> = Vec::new();
    let mut ledger = Ledger::new();

    player_action(&mut action, &mut player, true, 1, &mut trees, &mut ledger);
    assert_eq!(action.state, ActionState::Perform);

    // an attack press mid-perform neither skips ahead nor re-triggers
    player_action(&mut action, &mut player, true, 5, &mut trees, &mut ledger);
    assert_eq!(action.state, ActionState::Perform);

    player_action(&mut action, &mut player, true, ACTION_DURATION, &mut trees, &mut ledger);
    assert_eq!(action.state, ActionState::Recover);
    assert_eq!(player.state, PlayerState::Stand(Direction::Right));
    assert_eq!(action.action_timer.remaining, ACTION_DURATION);

    player_action(&mut action, &mut player, true, RECOVER_DURATION, &mut trees, &mut ledger);
    assert_eq!(action.state, ActionState::Ready);
    assert_eq!(action.recover_timer.remaining, RECOVER_DURATION);
}

#[test]
fn no_hit_test_during_perform_or_recover() {
    let mut action = PlayerAction::new();
    let mut player = chopper();
    let mut trees = one_tree();
    let mut ledger = Ledger::new();

    // trigger once: the tree takes one hit
    player_action(&mut action, &mut player, true, 1, &mut trees, &mut ledger);
    assert_eq!(trees[0].health, 60);

    // pressing attack during Perform and Recover must not damage anything
    player_action(&mut action, &mut player, true, 5, &mut trees, &mut ledger);
    assert_eq!(trees[0].health, 60);
    player_action(&mut action, &mut player, true, ACTION_DURATION, &mut trees, &mut ledger);
    assert_eq!(trees[0].health, 60);
    player_action(&mut action, &mut player, true, 5, &mut trees, &mut ledger);
    assert_eq!(trees[0].health, 60);
}

#[test]
fn three_full_cycles_fell_the_tree_with_one_destruction() {
    // damage 40 against health 100: 100 -> 60 -> 20 -> destroyed
    let mut action = PlayerAction::new();
    let mut player = chopper();
    let mut trees = one_tree();
    let mut ledger = Ledger::new();
    let expected_healths = [60i16, 20i16];

    for expected in expected_healths {
        let destroyed = player_action(&mut action, &mut player, true, 1, &mut trees, &mut ledger);
        assert_eq!(destroyed, 0);
        assert_eq!(trees.len(), 1);
        assert_eq!(trees[0].health, expected);
        assert_eq!(ledger.wood.0, 0);
        player_action(&mut action, &mut player, false, ACTION_DURATION, &mut trees, &mut ledger);
        player_action(&mut action, &mut player, false, RECOVER_DURATION, &mut trees, &mut ledger);
        assert_eq!(action.state, ActionState::Ready);
    }

    let destroyed = player_action(&mut action, &mut player, true, 1, &mut trees, &mut ledger);
    assert_eq!(destroyed, 1);
    assert_eq!(trees.len(), 0);
    assert_eq!(ledger.wood.0, 1);
}

#[test]
fn a_pass_damages_only_trees_whose_root_is_contacted() {
    // only the tree on cell (1, 0) has its root in reach of (44, -22)
    let mut trees = vec![
        Tree { x: 1, y: 0, health: 100 },
        Tree { x: 5, y: 5, health: 100 },
        Tree { x: -2, y: 0, health: 30 },
    ];
    let destroyed = chop_trees(44, -22, 40, &mut trees);
    assert_eq!(destroyed, 0);
    assert_eq!(
        trees,
        vec![
            Tree { x: 1, y: 0, health: 60 },
            Tree { x: 5, y: 5, health: 100 },
            Tree { x: -2, y: 0, health: 30 },
        ]
    );
}

#[test]
fn a_destroyed_tree_leaves_the_set_and_the_rest_stay() {
    let mut trees = vec![Tree { x: 1, y: 0, health: 40 }, Tree { x: 5, y: 5, health: 100 }];
    let destroyed = chop_trees(44, -22, 40, &mut trees);
    assert_eq!(destroyed, 1);
    assert_eq!(trees, vec![Tree { x: 5, y: 5, health: 100 }]);
}

#[test]
fn chop_pass_on_empty_set_is_a_no_op() {
    let mut trees: Vec<Tree> = Vec::new();
    let destroyed = chop_trees(0, 0, 40, &mut trees);
    assert_eq!(destroyed, 0);
    assert!(trees.is_empty());
}
