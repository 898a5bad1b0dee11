use tick_core::colony::ColonyStage;
use tick_core::creep::{classify, Job};
use tick_core::host::{Pos, ReturnCode};
use tick_core::spawn::{spawn_name, spawn_retry_step, SpawnStep};
use tick_core::text::{find_char, has_prefix, str_eq, u32_to_dec};

#[test]
fn job_names_round_trip() {
    for job in [Job::Upgrader, Job::Starter, Job::Builder, Job::Unassigned] {
        assert_eq!(Job::from_string(String::from(job.as_str())), job);
    }
    assert_eq!(Job::from_string(String::from("somethingelse")), Job::Unassigned);
}

#[test]
fn classification_comes_from_the_id_prefix() {
    assert_eq!(classify("Builder:1001"), Job::Builder);
    assert_eq!(classify("Upgrader:55170"), Job::Upgrader);
    assert_eq!(classify("Starter:1"), Job::Starter);
    assert_eq!(classify("Scout:2"), Job::Unassigned);
    assert_eq!(classify("Builder"), Job::Builder);
    assert_eq!(classify(""), Job::Unassigned);
    assert_eq!(classify(":17"), Job::Unassigned);
}

#[test]
fn stage_names_round_trip() {
    for stage in [ColonyStage::Bootstrap, ColonyStage::Running] {
        assert_eq!(ColonyStage::from_string(String::from(stage.as_str())), stage);
    }
    assert_eq!(ColonyStage::from_string(String::from("unknown")), ColonyStage::Bootstrap);
    assert_eq!(ColonyStage::Bootstrap.as_str(), "bootstrap");
    assert_eq!(ColonyStage::Running.as_str(), "running");
}

#[test]
fn decimal_notation() {
    assert_eq!(u32_to_dec(0), "0");
    assert_eq!(u32_to_dec(7), "7");
    assert_eq!(u32_to_dec(10), "10");
    assert_eq!(u32_to_dec(12345), "12345");
    assert_eq!(u32_to_dec(u32::MAX), "4294967295");
}

#[test]
fn generated_spawn_names_encode_the_job() {
    assert_eq!(spawn_name(&Job::Starter, 12345, 0), "Starter:123450");
    assert_eq!(spawn_name(&Job::Builder, 9, 2), "Builder:92");
    assert_eq!(classify(&spawn_name(&Job::Upgrader, 55170, 1)), Job::Upgrader);
}

#[test]
fn spawn_retry_bumps_only_on_name_conflict() {
    assert_eq!(spawn_retry_step(ReturnCode::NameExists, 0), SpawnStep::Retry(1));
    assert_eq!(spawn_retry_step(ReturnCode::NameExists, 4), SpawnStep::Retry(5));
    assert_eq!(spawn_retry_step(ReturnCode::Success, 3), SpawnStep::Done(ReturnCode::Success));
    assert_eq!(
        spawn_retry_step(ReturnCode::NotEnough, 0),
        SpawnStep::Done(ReturnCode::NotEnough)
    );
    assert_eq!(spawn_retry_step(ReturnCode::Other, 0), SpawnStep::Done(ReturnCode::Other));
}

#[test]
fn adjacency_is_range_one_in_the_same_region() {
    let here = Pos::new(String::from("R1"), 20, 20);
    assert!(here.is_near_to(&Pos::new(String::from("R1"), 20, 20)));
    assert!(here.is_near_to(&Pos::new(String::from("R1"), 21, 19)));
    assert!(!here.is_near_to(&Pos::new(String::from("R1"), 22, 20)));
    assert!(!here.is_near_to(&Pos::new(String::from("R2"), 20, 20)));
}

#[test]
fn string_helpers() {
    assert!(str_eq("abc", "abc"));
    assert!(!str_eq("abc", "abd"));
    assert!(!str_eq("abc", "ab"));
    assert!(str_eq("", ""));
    assert!(has_prefix("creeps:u1", "creeps:"));
    assert!(!has_prefix("colony:R1", "creeps:"));
    assert!(!has_prefix("cre", "creeps:"));
    assert_eq!(find_char("Builder:1001", ':'), 7);
    assert_eq!(find_char("Builder", ':'), 7);
    assert_eq!(find_char("", ':'), 0);
}
