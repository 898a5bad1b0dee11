use tick_core::creep::Creep;
use tick_core::harvest::Harvest;
use tick_core::host::{Action, CreepHandle, Pos, SourceInfo, SourceLookup};
use tick_core::store::Store;
use tick_core::task::{Task, TaskError, TaskOption, TaskTrait};

fn unit_at(x: u32, y: u32, carried: u32, capacity: u32) -> Creep {
    let handle = CreepHandle {
        name: String::from("Starter:1"),
        spawning: false,
        carry_total: carried,
        carry_capacity: capacity,
        ticks_to_live: Some(1000),
        pos: Pos::new(String::from("R1"), x, y),
    };
    Creep::from(&handle, &Store::new())
}

fn source_at(id: &str, x: u32, y: u32, energy: u32) -> SourceInfo {
    SourceInfo {
        id: String::from(id),
        pos: Pos::new(String::from("R1"), x, y),
        energy,
        ticks_to_regeneration: 0,
    }
}

#[test]
fn execute_with_unresolved_target_and_full_unit_issues_nothing() {
    let task = Harvest::new(None);
    let full_unit = unit_at(10, 10, 50, 50);
    let r = task.execute(&full_unit, &SourceLookup::NotFound);
    assert!(matches!(r, Err(TaskError::OptionFailed)));
}

#[test]
fn execute_moves_toward_distant_target_without_harvesting() {
    let task = Harvest::new(Some(String::from("src1")));
    let unit = unit_at(10, 10, 0, 50);
    let source = source_at("src1", 20, 20, 800);
    let r = task.execute(&unit, &SourceLookup::Found(source));
    match r {
        Ok(Action::MoveTo(p)) => {
            assert_eq!(p.x, 20);
            assert_eq!(p.y, 20);
        },
        _ => panic!("expected a move command"),
    }
}

#[test]
fn execute_harvests_when_adjacent() {
    let task = Harvest::new(Some(String::from("src1")));
    let unit = unit_at(20, 21, 0, 50);
    let source = source_at("src1", 20, 20, 800);
    let r = task.execute(&unit, &SourceLookup::Found(source));
    match r {
        Ok(Action::HarvestFrom(id)) => assert_eq!(id, "src1"),
        _ => panic!("expected a harvest command"),
    }
}

#[test]
fn execute_revalidates_every_attempt() {
    let task = Harvest::new(Some(String::from("src1")));
    // unit at capacity: invalid even though the target resolved
    let full_unit = unit_at(20, 21, 50, 50);
    let source = source_at("src1", 20, 20, 800);
    let r = task.execute(&full_unit, &SourceLookup::Found(source));
    assert!(matches!(r, Err(TaskError::Invalid)));
    // depleted target with slow regeneration: invalid
    let unit = unit_at(20, 21, 0, 50);
    let mut depleted = source_at("src1", 20, 20, 0);
    depleted.ticks_to_regeneration = 50;
    let r = task.execute(&unit, &SourceLookup::Found(depleted));
    assert!(matches!(r, Err(TaskError::Invalid)));
    // depleted but regenerating soon: still worth standing by
    let mut regenerating = source_at("src1", 20, 20, 0);
    regenerating.ticks_to_regeneration = 5;
    let r = task.execute(&unit, &SourceLookup::Found(regenerating));
    assert!(r.is_ok());
}

#[test]
fn execute_reports_lookup_failures() {
    let task = Harvest::new(Some(String::from("notahostid")));
    let unit = unit_at(10, 10, 0, 50);
    assert!(matches!(
        task.execute(&unit, &SourceLookup::ConversionFailed),
        Err(TaskError::ConversionError)
    ));
    assert!(matches!(
        task.execute(&unit, &SourceLookup::NotFound),
        Err(TaskError::OptionFailed)
    ));
}

#[test]
fn start_resolves_first_energetic_source_once() {
    let unit = unit_at(10, 10, 0, 50);
    let sources = vec![
        source_at("empty1", 1, 1, 0),
        source_at("live1", 2, 2, 100),
        source_at("live2", 3, 3, 300),
    ];
    let mut task = Harvest::new(None);
    task.start(&unit, &sources);
    assert_eq!(task.source_id().as_deref(), Some("live1"));
    // a second start keeps the resolved target
    let other = vec![source_at("live2", 3, 3, 300)];
    task.start(&unit, &other);
    assert_eq!(task.source_id().as_deref(), Some("live1"));
    // no energetic source: resolution defers failure to execute
    let mut unresolved = Harvest::new(None);
    unresolved.start(&unit, &vec![source_at("empty1", 1, 1, 0)]);
    assert_eq!(unresolved.source_id(), &None);
}

#[test]
fn task_dispatch_reaches_the_variant() {
    let unit = unit_at(20, 21, 0, 50);
    let mut task = Task::Harvest(Harvest::new(None));
    assert_eq!(task.name(), "Harvest");
    task.start(&unit, &vec![source_at("src9", 20, 20, 40)]);
    let r = task.execute(&unit, &SourceLookup::Found(source_at("src9", 20, 20, 40)));
    assert!(matches!(r, Ok(Action::HarvestFrom(_))));
}

#[test]
fn ok_or_invalid_lifts_options() {
    let some: Option<u32> = Some(7);
    assert!(matches!(some.ok_or_invalid(), Ok(7)));
    let none: Option<u32> = None;
    assert!(matches!(none.ok_or_invalid(), Err(TaskError::OptionFailed)));
}

#[test]
fn command_constructors_carry_their_targets() {
    let unit = unit_at(1, 1, 0, 50);
    match unit.build("site1") {
        Action::Build(id) => assert_eq!(id, "site1"),
        other => panic!("unexpected action {other:?}"),
    }
    match unit.upgrade_controller("ctrl1") {
        Action::UpgradeController(id) => assert_eq!(id, "ctrl1"),
        other => panic!("unexpected action {other:?}"),
    }
    match unit.transfer_all_energy("spawn1") {
        Action::TransferAllEnergy(id) => assert_eq!(id, "spawn1"),
        other => panic!("unexpected action {other:?}"),
    }
    match unit.move_to(&Pos::new(String::from("R1"), 2, 2)) {
        Action::MoveTo(p) => assert_eq!(p.x, 2),
        other => panic!("unexpected action {other:?}"),
    }
}

#[test]
fn save_tasks_persists_and_reads_back() {
    let mut store = Store::new();
    let handle = CreepHandle {
        name: String::from("Builder:3"),
        spawning: false,
        carry_total: 0,
        carry_capacity: 50,
        ticks_to_live: Some(300),
        pos: Pos::new(String::from("R1"), 5, 5),
    };
    let mut unit = Creep::from(&handle, &store);
    assert_eq!(unit.tasks().len(), 0);
    unit.save_tasks(vec![Task::Harvest(Harvest::new(Some(String::from("s1"))))], &mut store);
    assert_eq!(unit.tasks().len(), 1);
    assert_eq!(
        store.get("creeps:Builder:3"),
        Some(String::from("[{\"Harvest\":{\"_source_id\":\"s1\"}}]"))
    );
    // a unit rebuilt next session loads the same list
    let rebuilt = Creep::from(&handle, &store);
    assert_eq!(rebuilt.tasks().len(), 1);
    match &rebuilt.tasks()[0] {
        Task::Harvest(h) => assert_eq!(h.source_id().as_deref(), Some("s1")),
    }
}
