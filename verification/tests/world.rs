use lumberjack::action::{ActionState, PlayerAction, ACTION_DURATION, RECOVER_DURATION};
use lumberjack::kiosk::SellSign;
use lumberjack::ledger::Ledger;
use lumberjack::player::{Direction, MoveKeys, Player, PlayerState};
use lumberjack::spawner::TreeTimer;
use lumberjack::timer::Countdown;
use lumberjack::trees::{Tree, TREE_AMOUNT, TREE_HEALTH};
use lumberjack::world::{TickInput, World};

fn idle_input() -> TickInput {
    TickInput {
        keys: MoveKeys { up: false, down: false, left: false, right: false },
        attack: false,
        confirm: false,
    }
}

fn empty_world() -> World {
    World {
        player: Player::new(),
        action: PlayerAction::new(),
        trees: Vec::new(),
        tree_timer: TreeTimer::new(),
        ledger: Ledger::new(),
        sign: SellSign::new(),
    }
}

#[test]
fn countdown_ticks_down_and_fires_once_spent() {
    let mut c = Countdown::new(12);
    assert!(!c.tick(5));
    assert_eq!(c.remaining, 7);
    assert!(c.tick(7));
    assert_eq!(c.remaining, 0);
    c.reset(12);
    assert_eq!(c.remaining, 12);
    // an oversized step saturates at zero
    let mut d = Countdown::new(3);
    assert!(d.tick(1000));
    assert_eq!(d.remaining, 0);
}

#[test]
fn new_world_is_populated_within_the_rules() {
    let w = World::new(100_000);
    assert!(!w.trees.is_empty());
    assert_eq!(w.player.x, 0);
    assert_eq!(w.player.y, 0);
    assert_eq!(w.player.facing, Direction::Right);
    assert_eq!(w.action.state, ActionState::Ready);
    assert_eq!(w.ledger.coins.0, 0);
    assert_eq!(w.ledger.wood.0, 0);
    assert_eq!(w.sign, SellSign { x: 0, y: 0 });
    assert!(w.trees.len() <= TREE_AMOUNT);
    for t in &w.trees {
        assert_eq!(t.health, TREE_HEALTH);
        assert!(-12 <= t.x && t.x <= 12);
        assert!(-8 <= t.y && t.y <= 8);
    }
    for i in 0..w.trees.len() {
        for j in 0..w.trees.len() {
            if i != j {
                assert!(!(w.trees[i].x == w.trees[j].x && w.trees[i].y == w.trees[j].y));
            }
        }
    }
}

#[test]
fn idle_tick_only_advances_the_spawn_timer() {
    let mut w = empty_world();
    let before_remaining = w.tree_timer.0.remaining;
    w.tick(&idle_input(), 10);
    assert_eq!(w.player.x, 0);
    assert_eq!(w.player.y, 0);
    assert_eq!(w.player.state, PlayerState::Stand(Direction::Right));
    assert_eq!(w.action.state, ActionState::Ready);
    assert!(w.trees.is_empty());
    assert_eq!(w.tree_timer.0.remaining, before_remaining - 10);
    assert_eq!(w.ledger, Ledger::new());
}

#[test]
fn ticks_run_the_systems_in_order() {
    // the player stands beside a one-hit tree's root, with the sign right
    // there: the attack lands this very tick, and a tick later the confirm
    // converts the yield at the kiosk
    let mut w = empty_world();
    w.player.x = 44;
    w.player.y = -22;
    w.sign = SellSign { x: 44, y: -22 };
    w.trees.push(Tree { x: 1, y: 0, health: 40 });

    let attack = TickInput { attack: true, ..idle_input() };
    w.tick(&attack, 1);
    assert_eq!(w.action.state, ActionState::Perform);
    assert_eq!(w.player.state, PlayerState::Chop(Direction::Right));
    assert!(w.trees.is_empty());
    assert_eq!(w.ledger.wood.0, 1);
    assert_eq!(w.ledger.coins.0, 0);

    let confirm = TickInput { confirm: true, ..idle_input() };
    w.tick(&confirm, 1);
    assert_eq!(w.ledger.coins.0, 3);
    assert_eq!(w.ledger.wood.0, 0);
}

#[test]
fn movement_and_cooldown_over_consecutive_ticks() {
    let mut w = empty_world();
    let right = TickInput {
        keys: MoveKeys { up: false, down: false, left: false, right: true },
        attack: false,
        confirm: false,
    };
    w.tick(&right, 5);
    assert_eq!(w.player.x, 15);
    assert_eq!(w.player.state, PlayerState::Move(Direction::Right));

    // trigger an attack, then let the full cycle elapse
    let attack = TickInput { attack: true, ..idle_input() };
    w.tick(&attack, 1);
    assert_eq!(w.action.state, ActionState::Perform);
    w.tick(&idle_input(), ACTION_DURATION);
    assert_eq!(w.action.state, ActionState::Recover);
    assert_eq!(w.player.state, PlayerState::Stand(Direction::Right));
    w.tick(&idle_input(), RECOVER_DURATION);
    assert_eq!(w.action.state, ActionState::Ready);
}
