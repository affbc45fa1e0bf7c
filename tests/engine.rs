use alts::{
    claim_name, commit_checkpoint, is_strictly_inside, plan_checkpoint, plan_checkpoint_now,
    plan_init, AltsError, Config, Instant,
};

fn strings(v: &[&str]) -> Vec<String> {
    v.iter().map(|s| s.to_string()).collect()
}

fn at() -> Instant {
    Instant { year: 2024, month: 1, day: 2, hour: 3, minute: 4, second: 5, nanosecond: 0 }
}

fn with_snap1() -> Config {
    let mut c = Config::new("data.db".to_string());
    c.insert_checkpoint("snap1".to_string(), "t".to_string());
    c
}

#[test]
fn init_rejects_missing_target() {
    let cwd = strings(&["/", "w"]);
    assert_eq!(plan_init(false, false, &cwd, &Vec::new(), false), Err(AltsError::TargetMissing));
}

#[test]
fn init_rejects_non_directory() {
    let cwd = strings(&["/", "w"]);
    let t = strings(&["/", "w", "file.txt"]);
    assert_eq!(plan_init(true, false, &cwd, &t, false), Err(AltsError::InvalidTarget));
}

#[test]
fn init_rejects_outside_working_tree() {
    let cwd = strings(&["/", "w"]);
    assert_eq!(
        plan_init(true, true, &cwd, &strings(&["/", "other", "d"]), false),
        Err(AltsError::InvalidTarget)
    );
    assert_eq!(plan_init(true, true, &cwd, &strings(&["/"]), false), Err(AltsError::InvalidTarget));
    assert_eq!(plan_init(true, true, &cwd, &cwd, false), Err(AltsError::InvalidTarget));
    assert_eq!(
        plan_init(true, true, &cwd, &strings(&["/", "w", ".."]), false),
        Err(AltsError::InvalidTarget)
    );
}

#[test]
fn init_rejects_second_initialization() {
    let cwd = strings(&["/", "w"]);
    let t = strings(&["/", "w", "data"]);
    assert_eq!(plan_init(true, true, &cwd, &t, true), Err(AltsError::AlreadyInitialized));
}

#[test]
fn init_tracks_last_component() {
    let cwd = strings(&["/", "w"]);
    let t = strings(&["/", "w", "sub", "data"]);
    let c = plan_init(true, true, &cwd, &t, false).unwrap();
    assert_eq!(c.target_dir(), "data");
    assert_eq!(c.len(), 0);
}

#[test]
fn strictly_inside_paths() {
    let base = strings(&["/", "w"]);
    assert!(is_strictly_inside(&base, &strings(&["/", "w", "a"])));
    assert!(!is_strictly_inside(&base, &strings(&["/", "wx", "a"])));
    assert!(!is_strictly_inside(&base, &strings(&["/", "w", "a", ".."])));
}

#[test]
fn requested_name_collides() {
    let c = with_snap1();
    let r = plan_checkpoint(&c, true, true, Some("snap1".to_string()), &at());
    assert_eq!(r, Err(AltsError::NameCollision("snap1".to_string())));
    assert_eq!(c.len(), 1);
}

#[test]
fn sanitized_name_collides_too() {
    let c = with_snap1();
    let r = plan_checkpoint(&c, true, true, Some("x/snap1".to_string()), &at());
    assert_eq!(r, Err(AltsError::NameCollision("snap1".to_string())));
}

#[test]
fn empty_target_is_rejected() {
    let c = with_snap1();
    assert_eq!(plan_checkpoint(&c, true, false, None, &at()), Err(AltsError::TargetEmpty));
    assert_eq!(plan_checkpoint_now(&c, true, false, None), Err(AltsError::TargetEmpty));
    assert_eq!(c.len(), 1);
}

#[test]
fn requested_name_without_final_component_is_rejected() {
    let c = with_snap1();
    for n in ["..", "/", ".", "", "a/.."] {
        let r = plan_checkpoint(&c, true, true, Some(n.to_string()), &at());
        assert_eq!(r, Err(AltsError::InvalidName));
    }
    assert_eq!(c.len(), 1);
}

#[test]
fn automatic_name_of_unusual_target_is_rejected() {
    let c = Config::new("x/..".to_string());
    assert_eq!(plan_checkpoint(&c, true, true, None, &at()), Err(AltsError::InvalidName));
    let c = Config::new("a/".to_string());
    assert_eq!(
        plan_checkpoint(&c, true, true, None, &at()),
        Ok("a_2024_01_02_03_04_05".to_string())
    );
}

#[test]
fn missing_target_is_rejected() {
    let c = with_snap1();
    assert_eq!(plan_checkpoint(&c, false, true, None, &at()), Err(AltsError::TargetMissing));
}

#[test]
fn automatic_name_is_planned() {
    let c = with_snap1();
    assert_eq!(
        plan_checkpoint(&c, true, true, None, &at()),
        Ok("data_2024_01_02_03_04_05.db".to_string())
    );
}

#[test]
fn name_planned_now_has_stem_and_extension() {
    let c = with_snap1();
    let (name, t) = plan_checkpoint_now(&c, true, true, None).unwrap();
    assert!(name.starts_with("data_"));
    assert!(name.ends_with(".db"));
    assert_eq!(name.len(), "data_2024_01_02_03_04_05.db".len());
    assert!(t.year >= 1970);
}

#[test]
fn claim_free_and_taken_names() {
    let c = with_snap1();
    assert_eq!(claim_name(&c, "snap2".to_string()), Ok("snap2".to_string()));
    assert_eq!(
        claim_name(&c, "snap1".to_string()),
        Err(AltsError::NameCollision("snap1".to_string()))
    );
}

#[test]
fn commit_records_fraction_of_second() {
    let mut c = Config::new("d".to_string());
    let cases = [
        ("m", 120_000_000, "2024-01-02T03:04:05.120+00:00"),
        ("u", 5_000, "2024-01-02T03:04:05.000005+00:00"),
        ("n", 7, "2024-01-02T03:04:05.000000007+00:00"),
    ];
    for (name, nanosecond, _) in cases {
        let t = Instant { nanosecond, ..at() };
        commit_checkpoint(&mut c, name.to_string(), &t);
    }
    let parts = c.to_parts();
    for (name, _, expected) in cases {
        let p = parts.iter().find(|p| p.name == name).unwrap();
        assert_eq!(p.timestamp, expected);
    }
}

#[test]
fn commit_records_rfc3339_timestamp() {
    let mut c = with_snap1();
    commit_checkpoint(&mut c, "snap0".to_string(), &at());
    let parts = c.to_parts();
    assert_eq!(parts.len(), 2);
    assert_eq!(parts[0].name, "snap0");
    assert_eq!(parts[0].timestamp, "2024-01-02T03:04:05+00:00");
    assert_eq!(parts[1].name, "snap1");
}
