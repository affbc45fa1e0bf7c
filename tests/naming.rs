use alts::{auto_name, resolve_name, split_extension, Instant};

fn instant(year: i32, month: u32, day: u32, hour: u32, minute: u32, second: u32) -> Instant {
    Instant { year, month, day, hour, minute, second, nanosecond: 0 }
}

#[test]
fn auto_name_of_data_db_at_fixed_instant() {
    let t = instant(2024, 1, 2, 3, 4, 5);
    assert_eq!(resolve_name(None, "data.db", &t), Some("data_2024_01_02_03_04_05.db".to_string()));
}

#[test]
fn auto_name_without_extension() {
    let t = instant(2023, 12, 31, 23, 59, 58);
    assert_eq!(resolve_name(None, "project", &t), Some("project_2023_12_31_23_59_58".to_string()));
}

#[test]
fn auto_name_pads_small_years() {
    let t = instant(987, 6, 7, 8, 9, 10);
    assert_eq!(resolve_name(None, "notes", &t), Some("notes_0987_06_07_08_09_10".to_string()));
}

#[test]
fn requested_name_keeps_final_component() {
    let t = instant(2024, 1, 2, 3, 4, 5);
    let resolve = |n: &str| resolve_name(Some(n.to_string()), "data", &t);
    assert_eq!(resolve("../outside/snap"), Some("snap".to_string()));
    assert_eq!(resolve("../../x"), Some("x".to_string()));
    assert_eq!(resolve("a/b/c/"), Some("c".to_string()));
    assert_eq!(resolve("a/b/./"), Some("b".to_string()));
    assert_eq!(resolve("snap1"), Some("snap1".to_string()));
}

#[test]
fn requested_name_without_final_component_has_none() {
    let t = instant(2024, 1, 2, 3, 4, 5);
    for n in ["..", "/", ".", "", "a/..", "./", "//"] {
        assert_eq!(resolve_name(Some(n.to_string()), "data", &t), None);
    }
}

#[test]
fn split_extension_cases() {
    assert_eq!(split_extension("project.db"), ("project".to_string(), ".db".to_string()));
    assert_eq!(split_extension("project"), ("project".to_string(), String::new()));
    assert_eq!(split_extension(".hidden"), (".hidden".to_string(), String::new()));
    assert_eq!(split_extension("a.b.c"), ("a.b".to_string(), ".c".to_string()));
    assert_eq!(split_extension("a."), ("a".to_string(), ".".to_string()));
    assert_eq!(split_extension(".."), ("..".to_string(), String::new()));
}

#[test]
fn auto_name_falls_back_to_whole_target() {
    assert_eq!(auto_name("x.y/..", None, "S"), "x.y/.._S");
    assert_eq!(auto_name("ignored", Some("arch.tar.gz".to_string()), "S"), "arch.tar_S.gz");
}
