use gbt::staleness::{needs_rebuild, FileTime};

fn at(seconds: i64, nanos: u32) -> FileTime {
    FileTime { seconds, nanos }
}

#[test]
fn no_sources_depends_on_target_only() {
    assert!(needs_rebuild(&vec![], None));
    assert!(!needs_rebuild(&vec![], Some(at(5, 0))));
}

#[test]
fn absent_target_is_stale() {
    assert!(needs_rebuild(&vec![at(1, 0), at(2, 0)], None));
}

#[test]
fn target_newer_than_every_source_is_fresh() {
    assert!(!needs_rebuild(&vec![at(1, 0), at(9, 999)], Some(at(10, 0))));
    assert!(!needs_rebuild(&vec![at(10, 4)], Some(at(10, 5))));
}

#[test]
fn equal_timestamp_is_stale() {
    assert!(needs_rebuild(&vec![at(1, 0), at(10, 5)], Some(at(10, 5))));
}

#[test]
fn newer_source_is_stale() {
    assert!(needs_rebuild(&vec![at(11, 0), at(1, 0)], Some(at(10, 0))));
    assert!(needs_rebuild(&vec![at(-1, 0), at(10, 6)], Some(at(10, 5))));
}

#[test]
fn earlier_compares_seconds_then_nanos() {
    assert!(at(1, 999).is_earlier_than(&at(2, 0)));
    assert!(!at(2, 0).is_earlier_than(&at(2, 0)));
    assert!(at(2, 0).is_earlier_than(&at(2, 1)));
}
