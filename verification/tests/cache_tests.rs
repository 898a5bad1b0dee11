use tick_core::colony::ColonyStage;
use tick_core::creep::Job;
use tick_core::game::Game;
use tick_core::host::{CreepHandle, Pos, SpawnHandle};
use tick_core::store::Store;

fn creep_handle(name: &str, room: &str, ttl: u32) -> CreepHandle {
    CreepHandle {
        name: String::from(name),
        spawning: false,
        carry_total: 0,
        carry_capacity: 50,
        ticks_to_live: Some(ttl),
        pos: Pos::new(String::from(room), 10, 10),
    }
}

fn spawn_handle(name: &str, room: &str) -> SpawnHandle {
    SpawnHandle {
        name: String::from(name),
        pos: Pos::new(String::from(room), 25, 25),
        energy: 300,
        energy_capacity: 300,
    }
}

#[test]
fn classification_assigned_then_evicted() {
    let mut game = Game::new();
    let mut store = Store::new();
    let tick1 = vec![creep_handle("Builder:1001", "R1", 500)];
    game.refresh_state(&mut store, &tick1, &vec![]);
    let c = game.get_creep("Builder:1001").expect("inserted on first observation");
    assert_eq!(*c.job(), Job::Builder);
    let tick2: Vec<CreepHandle> = vec![];
    game.refresh_state(&mut store, &tick2, &vec![]);
    assert!(game.get_creep("Builder:1001").is_none());
}

#[test]
fn classification_is_stable_across_refreshes() {
    let mut game = Game::new();
    let mut store = Store::new();
    let tick = vec![creep_handle("Upgrader:7", "R1", 900)];
    game.refresh_state(&mut store, &tick, &vec![]);
    for _ in 0..5 {
        game.refresh_state(&mut store, &tick, &vec![]);
        assert_eq!(*game.get_creep("Upgrader:7").unwrap().job(), Job::Upgrader);
    }
}

#[test]
fn unknown_prefix_is_unassigned() {
    let mut game = Game::new();
    let mut store = Store::new();
    game.refresh_state(&mut store, &vec![creep_handle("Miner:1", "R1", 100)], &vec![]);
    assert_eq!(*game.get_creep("Miner:1").unwrap().job(), Job::Unassigned);
}

#[test]
fn transient_fields_rebound_each_tick() {
    let mut game = Game::new();
    let mut store = Store::new();
    game.refresh_state(&mut store, &vec![creep_handle("Starter:1", "R1", 800)], &vec![]);
    let mut h = creep_handle("Starter:1", "R2", 799);
    h.carry_total = 25;
    game.refresh_state(&mut store, &vec![h], &vec![]);
    let c = game.get_creep("Starter:1").unwrap();
    assert_eq!(c.carry_total(), 25);
    assert_eq!(c.ticks_to_live(), 799);
    assert_eq!(c.room(), "R2");
}

#[test]
fn spawning_unit_uses_placeholder_lifetime() {
    let mut game = Game::new();
    let mut store = Store::new();
    let h = CreepHandle {
        name: String::from("Starter:2"),
        spawning: true,
        carry_total: 0,
        carry_capacity: 0,
        ticks_to_live: None,
        pos: Pos::new(String::from("R1"), 3, 3),
    };
    game.refresh_state(&mut store, &vec![h], &vec![]);
    let c = game.get_creep("Starter:2").unwrap();
    assert!(c.spawning());
    assert_eq!(c.ticks_to_live(), 1500);
}

#[test]
fn refresh_twice_changes_nothing_but_the_counter() {
    let mut game = Game::new();
    let mut store = Store::new();
    store.set("creeps:Builder:9", String::from("[{\"Harvest\":{\"_source_id\":\"s1\"}}]"));
    let creeps = vec![creep_handle("Builder:9", "R1", 650)];
    let spawns = vec![spawn_handle("Spawn1", "R1")];
    game.refresh_state(&mut store, &creeps, &spawns);
    let tasks_after_first = game.get_creep("Builder:9").unwrap().tasks().len();
    let roster_after_first = game.get_colony("R1").unwrap().spawns().clone();
    let counter_after_first = game.counter();
    game.refresh_state(&mut store, &creeps, &spawns);
    let c = game.get_creep("Builder:9").unwrap();
    assert_eq!(c.tasks().len(), tasks_after_first);
    assert_eq!(tasks_after_first, 1);
    assert_eq!(game.get_colony("R1").unwrap().spawns(), &roster_after_first);
    assert_eq!(game.get_colony("R1").unwrap().spawns(), &vec![String::from("Spawn1")]);
    assert_eq!(game.counter(), counter_after_first + 1);
}

#[test]
fn first_spawn_creates_bootstrap_colony() {
    let mut game = Game::new();
    let mut store = Store::new();
    game.refresh_state(&mut store, &vec![], &vec![spawn_handle("Spawn1", "R1")]);
    let colony = game.get_colony("R1").expect("colony created on first structure");
    assert_eq!(*colony.stage(), ColonyStage::Bootstrap);
    assert_eq!(colony.spawns(), &vec![String::from("Spawn1")]);
    assert_eq!(store.get("colony:R1"), Some(String::from("bootstrap")));
}

#[test]
fn second_spawn_joins_existing_colony() {
    let mut game = Game::new();
    let mut store = Store::new();
    game.refresh_state(&mut store, &vec![], &vec![spawn_handle("Spawn1", "R1")]);
    game.refresh_state(
        &mut store,
        &vec![],
        &vec![spawn_handle("Spawn1", "R1"), spawn_handle("Spawn2", "R1")],
    );
    let colony = game.get_colony("R1").unwrap();
    assert_eq!(colony.spawns(), &vec![String::from("Spawn1"), String::from("Spawn2")]);
}

#[test]
fn stage_advances_and_never_regresses() {
    let mut game = Game::new();
    let mut store = Store::new();
    let spawns = vec![spawn_handle("Spawn1", "R1")];
    game.refresh_state(&mut store, &vec![], &spawns);
    // the explicit external transition persists the new stage
    game.advance_colony_stage(&mut store, "R1");
    assert_eq!(*game.get_colony("R1").unwrap().stage(), ColonyStage::Running);
    assert_eq!(store.get("colony:R1"), Some(String::from("running")));
    // observed as running on every later tick of this session
    game.refresh_state(&mut store, &vec![], &spawns);
    assert_eq!(*game.get_colony("R1").unwrap().stage(), ColonyStage::Running);
    // a later session sees the advanced stage, never bootstrap again
    let mut game2 = Game::new();
    game2.refresh_state(&mut store, &vec![], &spawns);
    assert_eq!(*game2.get_colony("R1").unwrap().stage(), ColonyStage::Running);
    for _ in 0..3 {
        game2.refresh_state(&mut store, &vec![], &spawns);
        assert_eq!(*game2.get_colony("R1").unwrap().stage(), ColonyStage::Running);
    }
}

#[test]
fn spawn_fields_read_fresh_each_tick() {
    let mut game = Game::new();
    let mut store = Store::new();
    game.refresh_state(&mut store, &vec![], &vec![spawn_handle("Spawn1", "R1")]);
    let mut h = spawn_handle("Spawn1", "R1");
    h.energy = 17;
    game.refresh_state(&mut store, &vec![], &vec![h]);
    assert_eq!(game.get_spawn("Spawn1").unwrap().energy(), 17);
    game.refresh_state(&mut store, &vec![], &vec![]);
    assert!(game.get_spawn("Spawn1").is_none());
}

#[test]
fn task_list_loaded_and_reloaded_only_on_change() {
    let mut game = Game::new();
    let mut store = Store::new();
    store.set("creeps:Starter:5", String::from("[{\"Harvest\":{}}]"));
    let creeps = vec![creep_handle("Starter:5", "R1", 700)];
    game.refresh_state(&mut store, &creeps, &vec![]);
    assert_eq!(game.get_creep("Starter:5").unwrap().tasks().len(), 1);
    // a malformed rewrite is ignored and the previous list kept
    store.set("creeps:Starter:5", String::from("not a record"));
    game.refresh_state(&mut store, &creeps, &vec![]);
    assert_eq!(game.get_creep("Starter:5").unwrap().tasks().len(), 1);
    // a well-formed rewrite replaces the list
    store.set(
        "creeps:Starter:5",
        String::from("[{\"Harvest\":{}},{\"Harvest\":{\"_source_id\":\"s\"}}]"),
    );
    game.refresh_state(&mut store, &creeps, &vec![]);
    assert_eq!(game.get_creep("Starter:5").unwrap().tasks().len(), 2);
}

#[test]
fn get_creep_by_job_filters_and_respects_expiry() {
    let mut game = Game::new();
    let mut store = Store::new();
    let creeps = vec![
        creep_handle("Builder:1", "R1", 600),
        creep_handle("Builder:2", "R1", 150),
        creep_handle("Starter:1", "R1", 600),
    ];
    game.refresh_state(&mut store, &creeps, &vec![]);
    let all_builders = game.get_creep_by_job(&Job::Builder, false);
    assert_eq!(all_builders.len(), 2);
    let active_builders = game.get_active_creep_by_job(&Job::Builder);
    assert_eq!(active_builders.len(), 1);
    assert_eq!(active_builders[0].name(), "Builder:1");
}
