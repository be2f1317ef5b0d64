use lumberjack::spawner::{check_tree_amount, spawn_tree, spawn_trees, TreeTimer, TREE_SPAWN_PERIOD};
use lumberjack::timer::Countdown;
use lumberjack::trees::{check_tree_position, Tree, TREE_AMOUNT, TREE_HEALTH};

fn assert_lattice_and_distinct(trees: &[Tree]) {
    for t in trees {
        assert!(-12 <= t.x && t.x <= 12, "column out of the lattice: {}", t.x);
        assert!(-8 <= t.y && t.y <= 8, "row out of the lattice: {}", t.y);
    }
    for i in 0..trees.len() {
        for j in 0..trees.len() {
            if i != j {
                assert!(
                    !(trees[i].x == trees[j].x && trees[i].y == trees[j].y),
                    "two trees share cell ({}, {})",
                    trees[i].x,
                    trees[i].y
                );
            }
        }
    }
}

fn full_population() -> Vec<Tree> {
    let mut trees = Vec::new();
    for i in 0..TREE_AMOUNT as i32 {
        trees.push(Tree { x: i - 10, y: 0, health: TREE_HEALTH });
    }
    trees
}

#[test]
fn startup_population_is_capped_in_range_and_distinct() {
    let mut trees: Vec<Tree> = Vec::new();
    spawn_trees(&mut trees, 100_000);
    assert!(trees.len() <= TREE_AMOUNT);
    // 100000 draws over a 25 x 17 grid: reaching a cap of 20 is certain
    assert_eq!(trees.len(), TREE_AMOUNT);
    assert_lattice_and_distinct(&trees);
    for t in &trees {
        assert_eq!(t.health, TREE_HEALTH);
    }
}

#[test]
fn startup_keeps_existing_trees() {
    let mut trees = vec![Tree { x: 0, y: 0, health: 42 }];
    spawn_trees(&mut trees, 100_000);
    assert_eq!(trees[0], Tree { x: 0, y: 0, health: 42 });
    assert_lattice_and_distinct(&trees);
}

#[test]
fn startup_with_no_attempts_spawns_nothing() {
    let mut trees: Vec<Tree> = Vec::new();
    spawn_trees(&mut trees, 0);
    assert!(trees.is_empty());
}

#[test]
fn replenishment_at_cap_is_a_no_op() {
    let mut trees = full_population();
    let before = trees.clone();
    let mut timer = TreeTimer::new();
    check_tree_amount(&mut timer, TREE_SPAWN_PERIOD, &mut trees);
    assert_eq!(trees, before);
    // the timer still rewinds for the next cycle
    assert_eq!(timer.0.remaining, TREE_SPAWN_PERIOD);
}

#[test]
fn replenishment_before_the_timer_fires_spawns_nothing() {
    let mut trees: Vec<Tree> = Vec::new();
    let mut timer = TreeTimer::new();
    check_tree_amount(&mut timer, 10, &mut trees);
    assert!(trees.is_empty());
    assert_eq!(timer.0.remaining, TREE_SPAWN_PERIOD - 10);
}

#[test]
fn replenishment_below_cap_attempts_one_spawn() {
    let mut trees: Vec<Tree> = Vec::new();
    let mut timer = TreeTimer(Countdown { remaining: 1 });
    check_tree_amount(&mut timer, 1, &mut trees);
    // on an empty world the single draw always lands on a free cell
    assert_eq!(trees.len(), 1);
    assert_eq!(trees[0].health, TREE_HEALTH);
    assert_lattice_and_distinct(&trees);
    assert_eq!(timer.0.remaining, TREE_SPAWN_PERIOD);
}

#[test]
fn single_attempt_on_an_empty_world_always_plants() {
    let mut trees: Vec<Tree> = Vec::new();
    let planted = spawn_tree(&mut trees);
    assert!(planted);
    assert_eq!(trees.len(), 1);
    assert_eq!(trees[0].health, TREE_HEALTH);
    assert_lattice_and_distinct(&trees);
}

#[test]
fn attempt_on_a_full_grid_never_plants() {
    // every lattice cell taken: whatever cell the draw lands on is occupied
    let mut trees: Vec<Tree> = Vec::new();
    for x in -12..=12 {
        for y in -8..=8 {
            trees.push(Tree { x, y, health: 1 });
        }
    }
    let planted = spawn_tree(&mut trees);
    assert!(!planted);
    assert_eq!(trees.len(), 25 * 17);
}

#[test]
fn occupancy_check_matches_cells_exactly() {
    let trees = vec![Tree { x: 3, y: -2, health: 100 }];
    assert!(check_tree_position(3, -2, &trees));
    assert!(!check_tree_position(3, 2, &trees));
    assert!(!check_tree_position(-3, -2, &trees));
    assert!(!check_tree_position(0, 0, &Vec::new()));
}
