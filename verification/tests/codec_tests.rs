use tick_core::codec::{deserialize_tasks, serialize_task, serialize_tasks};
use tick_core::harvest::Harvest;
use tick_core::task::Task;

fn harvest_task(id: Option<&str>) -> Task {
    Task::Harvest(Harvest::new(id.map(String::from)))
}

#[test]
fn serialize_unresolved_harvest() {
    let t = harvest_task(None);
    assert_eq!(serialize_task(&t), "{\"Harvest\":{}}");
}

#[test]
fn serialize_resolved_harvest() {
    let t = harvest_task(Some("src1"));
    assert_eq!(serialize_task(&t), "{\"Harvest\":{\"_source_id\":\"src1\"}}");
}

#[test]
fn serialize_task_list() {
    let ts = vec![harvest_task(None), harvest_task(Some("ab"))];
    assert_eq!(
        serialize_tasks(&ts),
        "[{\"Harvest\":{}},{\"Harvest\":{\"_source_id\":\"ab\"}}]"
    );
}

fn round_trip(ts: Vec<Task>) {
    let packed = serialize_tasks(&ts);
    let unpacked = deserialize_tasks(&packed).expect("a printed record parses");
    let repacked = serialize_tasks(&unpacked);
    assert_eq!(packed, repacked);
}

#[test]
fn round_trip_every_variant() {
    round_trip(vec![]);
    round_trip(vec![harvest_task(None)]);
    round_trip(vec![harvest_task(Some("5bbcae009099fc012e63827e"))]);
    round_trip(vec![harvest_task(Some("with\"quote")), harvest_task(Some("with\\slash"))]);
    round_trip(vec![harvest_task(None), harvest_task(Some("x")), harvest_task(None)]);
}

#[test]
fn deserialize_inverts_serialize_exactly() {
    let ts = vec![harvest_task(Some("a\"b\\c")), harvest_task(None)];
    let unpacked = deserialize_tasks(&serialize_tasks(&ts)).unwrap();
    assert_eq!(unpacked.len(), 2);
    match &unpacked[0] {
        Task::Harvest(h) => assert_eq!(h.source_id().as_deref(), Some("a\"b\\c")),
    }
    match &unpacked[1] {
        Task::Harvest(h) => assert_eq!(h.source_id(), &None),
    }
}

#[test]
fn deserialize_rejects_garbage() {
    assert!(deserialize_tasks("").is_none());
    assert!(deserialize_tasks("[").is_none());
    assert!(deserialize_tasks("{}").is_none());
    assert!(deserialize_tasks("[{\"Harvest\":{}}").is_none());
    assert!(deserialize_tasks("[{\"Harvest\":{}}]x").is_none());
    assert!(deserialize_tasks("[{\"Dig\":{}}]").is_none());
    assert!(deserialize_tasks("[{\"Harvest\":{\"_source_id\":\"unterminated}]").is_none());
}

#[test]
fn format_matches_reference_json_encoder() {
    let mut inner = serde_json::Map::new();
    inner.insert(
        String::from("_source_id"),
        serde_json::Value::String(String::from("src1")),
    );
    let mut outer = serde_json::Map::new();
    outer.insert(String::from("Harvest"), serde_json::Value::Object(inner));
    let expected = serde_json::to_string(&serde_json::Value::Object(outer)).unwrap();
    assert_eq!(serialize_task(&harvest_task(Some("src1"))), expected);

    let mut outer_empty = serde_json::Map::new();
    outer_empty.insert(
        String::from("Harvest"),
        serde_json::Value::Object(serde_json::Map::new()),
    );
    let expected_empty = serde_json::to_string(&serde_json::Value::Object(outer_empty)).unwrap();
    assert_eq!(serialize_task(&harvest_task(None)), expected_empty);
}
