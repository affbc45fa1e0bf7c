use alts::{name_in, Checkpoint, Config, AltsError};

fn cp(name: &str, timestamp: &str) -> Checkpoint {
    Checkpoint { name: name.to_string(), timestamp: timestamp.to_string() }
}

fn names(c: &Config) -> Vec<String> {
    c.to_parts().into_iter().map(|p| p.name).collect()
}

fn strings(v: &[&str]) -> Vec<String> {
    v.iter().map(|s| s.to_string()).collect()
}

fn sample() -> Config {
    let mut c = Config::new("data".to_string());
    for n in ["m", "c", "x", "a", "k"] {
        c.insert_checkpoint(n.to_string(), format!("t-{}", n));
    }
    c
}

#[test]
fn insert_keeps_names_in_order() {
    let c = sample();
    assert_eq!(names(&c), strings(&["a", "c", "k", "m", "x"]));
    assert_eq!(c.len(), 5);
    assert_eq!(c.target_dir(), "data");
}

#[test]
fn order_is_by_code_point() {
    let mut c = Config::new("d".to_string());
    for n in ["b", "B", "ab", "a", "é", ""] {
        c.insert_checkpoint(n.to_string(), String::new());
    }
    assert_eq!(names(&c), strings(&["", "B", "a", "ab", "b", "é"]));
}

#[test]
fn contains_finds_names() {
    let c = sample();
    assert!(c.contains(&"k".to_string()));
    assert!(!c.contains(&"z".to_string()));
}

#[test]
fn prune_drops_missing_and_settles() {
    let mut c = sample();
    let present = strings(&["a", "k", "x", "unrelated"]);
    let removed = c.prune(&present);
    assert_eq!(removed, 2);
    assert_eq!(c.len(), 3);
    assert_eq!(names(&c), strings(&["a", "k", "x"]));
    for n in names(&c) {
        assert!(name_in(&present, &n));
    }
    assert_eq!(c.prune(&present), 0);
    assert_eq!(names(&c), strings(&["a", "k", "x"]));
}

#[test]
fn prune_with_nothing_on_disk_empties_index() {
    let mut c = sample();
    assert_eq!(c.prune(&Vec::new()), 5);
    assert_eq!(c.len(), 0);
}

#[test]
fn listing_twice_is_identical() {
    let c = sample();
    let present = strings(&["c", "m"]);
    let first = c.list(&present);
    let second = c.list(&present);
    assert_eq!(first, second);
    let flags: Vec<bool> = first.iter().map(|e| e.exists).collect();
    assert_eq!(flags, vec![false, true, false, true, false]);
    assert_eq!(first[1].name, "c");
    assert_eq!(first[1].timestamp, "t-c");
}

#[test]
fn describe_counts_and_sums() {
    let c = sample();
    let present = strings(&["a", "c", "m"]);
    let sizes = vec![Some(10), None, Some(7), Some(5), Some(100)];
    let s = c.describe(&present, &sizes);
    assert_eq!(s.total, 5);
    assert_eq!(s.valid, 3);
    assert_eq!(s.missing, 2);
    assert_eq!(s.total_size_kb, 15);
}

#[test]
fn describe_total_saturates() {
    let c = sample();
    let present = strings(&["a", "c", "k", "m", "x"]);
    let sizes = vec![Some(u64::MAX), Some(1), None, None, None];
    assert_eq!(c.describe(&present, &sizes).total_size_kb, u64::MAX);
}

#[test]
fn save_load_round_trip() {
    let c = sample();
    let back = Config::from_parts(c.target_dir().clone(), c.to_parts()).unwrap();
    assert_eq!(back, c);
}

#[test]
fn unordered_parts_are_corrupt() {
    let parts = vec![cp("b", "1"), cp("a", "2")];
    assert_eq!(Config::from_parts("d".to_string(), parts), Err(AltsError::CorruptState));
}

#[test]
fn duplicate_parts_are_corrupt() {
    let parts = vec![cp("a", "1"), cp("a", "2")];
    assert_eq!(Config::from_parts("d".to_string(), parts), Err(AltsError::CorruptState));
}

#[test]
fn ordered_parts_load() {
    let parts = vec![cp("a", "1"), cp("b", "2")];
    let c = Config::from_parts("d".to_string(), parts).unwrap();
    assert_eq!(names(&c), strings(&["a", "b"]));
    assert_eq!(c.target_dir(), "d");
}
