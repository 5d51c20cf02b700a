use coverage::collector::{
    decode, decode_ex, disable, enable, export_coverage, hit, hit_branch, hit_ex, hit_function,
    hit_line, is_enabled, record_hit, reset, Collector, CoverageGuard,
};
use coverage::data::probe_kind;

#[test]
fn test_enable_disable() {
    let mut collector = Collector::new();
    disable(&mut collector);
    assert!(!is_enabled(&collector));

    enable(&mut collector);
    assert!(is_enabled(&collector));

    disable(&mut collector);
    assert!(!is_enabled(&collector));
}

#[test]
fn test_record_hit() {
    let mut collector = Collector::new();
    enable(&mut collector);
    reset(&mut collector);

    record_hit(&mut collector, 1, probe_kind::LINE);
    record_hit(&mut collector, 1, probe_kind::LINE);
    record_hit(&mut collector, 2, probe_kind::FUNCTION_ENTRY);

    let data = export_coverage(&mut collector);
    assert_eq!(data.get_hit_count(1), 2);
    assert_eq!(data.get_hit_count(2), 1);

    disable(&mut collector);
}

#[test]
fn test_coverage_guard() {
    let mut collector = Collector::new();
    disable(&mut collector);

    {
        let guard = CoverageGuard::new_fresh(&mut collector);
        assert!(is_enabled(&collector));
        record_hit(&mut collector, 1, probe_kind::LINE);
        guard.release(&mut collector);
    }

    assert!(!is_enabled(&collector));
}

#[test]
fn test_encoded_hit() {
    let mut collector = Collector::new();
    enable(&mut collector);
    reset(&mut collector);

    // probe id 42, kind LINE (0)
    let encoded: i64 = 42;
    hit(&mut collector, encoded);

    let data = export_coverage(&mut collector);
    assert_eq!(data.get_hit_count(42), 1);

    disable(&mut collector);
}

#[test]
fn a_new_collector_is_switched_off_and_empty() {
    let mut collector = Collector::new();
    assert!(!is_enabled(&collector));
    let data = export_coverage(&mut collector);
    assert_eq!(data.probes_hit(), 0);
    assert_eq!(data.get_hit_count(7), 0);
}

#[test]
fn hits_while_disabled_change_nothing() {
    let mut collector = Collector::new();
    enable(&mut collector);
    record_hit(&mut collector, 5, probe_kind::LINE);
    disable(&mut collector);

    record_hit(&mut collector, 5, probe_kind::LINE);
    record_hit(&mut collector, 6, probe_kind::BRANCH_TRUE);
    hit_line(&mut collector, 5);
    hit_function(&mut collector, 8);
    hit_branch(&mut collector, 9, true);
    hit(&mut collector, 5);
    hit_ex(&mut collector, 5, 0);

    let data = export_coverage(&mut collector);
    assert_eq!(data.get_hit_count(5), 1);
    assert_eq!(data.get_hit_count(6), 0);
    assert_eq!(data.get_hit_count(8), 0);
    assert_eq!(data.get_hit_count(9), 0);
    assert_eq!(data.probes_hit(), 1);
}

#[test]
fn a_probe_recorded_n_times_counts_n() {
    let mut collector = Collector::new();
    enable(&mut collector);
    for round in 0..25u64 {
        record_hit(&mut collector, 3, probe_kind::LINE);
        record_hit(&mut collector, 100 + round, probe_kind::LINE);
    }
    let data = export_coverage(&mut collector);
    assert_eq!(data.get_hit_count(3), 25);
    assert_eq!(data.get_hit_count(100), 1);
    assert_eq!(data.get_hit_count(124), 1);
    assert_eq!(data.get_hit_count(4), 0);
    assert_eq!(data.probes_hit(), 26);
}

#[test]
fn export_is_a_snapshot_and_collection_goes_on() {
    let mut collector = Collector::new();
    enable(&mut collector);
    record_hit(&mut collector, 1, probe_kind::LINE);
    let first = export_coverage(&mut collector);
    record_hit(&mut collector, 1, probe_kind::LINE);
    let second = export_coverage(&mut collector);
    assert_eq!(first.get_hit_count(1), 1);
    assert_eq!(second.get_hit_count(1), 2);
    assert!(first.end_time >= first.start_time);
    assert!(second.end_time >= second.start_time);
    assert_eq!(first.start_time, second.start_time);
}

#[test]
fn reset_clears_hits_and_keeps_the_switch() {
    let mut collector = Collector::new();
    enable(&mut collector);
    record_hit(&mut collector, 1, probe_kind::LINE);
    export_coverage(&mut collector);
    reset(&mut collector);
    assert!(is_enabled(&collector));
    assert_eq!(collector.data.probes_hit(), 0);
    assert_eq!(collector.data.end_time, 0);
}

#[test]
fn convenience_hits_record_their_kind() {
    let mut collector = Collector::new();
    enable(&mut collector);
    hit_line(&mut collector, 1);
    hit_function(&mut collector, 2);
    hit_branch(&mut collector, 3, true);
    hit_branch(&mut collector, 4, false);
    let data = export_coverage(&mut collector);
    assert_eq!(data.probe_hits[&1].kind, probe_kind::LINE);
    assert_eq!(data.probe_hits[&2].kind, probe_kind::FUNCTION_ENTRY);
    assert_eq!(data.probe_hits[&3].kind, probe_kind::BRANCH_TRUE);
    assert_eq!(data.probe_hits[&4].kind, probe_kind::BRANCH_FALSE);
    assert_eq!(data.probe_hits[&3].count, 1);
}

#[test]
fn decode_splits_id_and_kind() {
    assert_eq!(decode(42), (42, 0));
    assert_eq!(decode((2i64 << 56) | 7), (7, 2));
    assert_eq!(decode((3i64 << 56) | 0x00FF_FFFF_FFFF_FFFF), (0x00FF_FFFF_FFFF_FFFF, 3));
    assert_eq!(decode(0), (0, 0));
    // all bits set: id is 2^56 - 1, kind is 255
    assert_eq!(decode(-1), (0x00FF_FFFF_FFFF_FFFF, 255));
    assert_eq!(decode(i64::MIN), (0, 128));
    assert_eq!(decode(i64::MAX), (0x00FF_FFFF_FFFF_FFFF, 127));
}

#[test]
fn decode_ex_truncates() {
    assert_eq!(decode_ex(42, 1), (42, 1));
    assert_eq!(decode_ex(-1, 3), (u64::MAX, 3));
    assert_eq!(decode_ex(7, 256), (7, 0));
    assert_eq!(decode_ex(7, 259), (7, 3));
    assert_eq!(decode_ex(7, -1), (7, 255));
    assert_eq!(decode_ex(i64::MIN, i32::MIN), (1u64 << 63, 0));
}

#[test]
fn encoded_hits_reach_the_collector() {
    let mut collector = Collector::new();
    enable(&mut collector);
    hit(&mut collector, (2i64 << 56) | 9);
    hit(&mut collector, (2i64 << 56) | 9);
    hit_ex(&mut collector, 11, 3);
    let data = export_coverage(&mut collector);
    assert_eq!(data.get_hit_count(9), 2);
    assert_eq!(data.probe_hits[&9].kind, probe_kind::BRANCH_TRUE);
    assert_eq!(data.get_hit_count(11), 1);
    assert_eq!(data.probe_hits[&11].kind, probe_kind::BRANCH_FALSE);
}

#[test]
fn guard_leaves_collection_on_if_it_was_on() {
    let mut collector = Collector::new();
    enable(&mut collector);
    let guard = CoverageGuard::new(&mut collector);
    assert!(guard.was_enabled);
    assert!(is_enabled(&collector));
    guard.release(&mut collector);
    assert!(is_enabled(&collector));
}

#[test]
fn guard_never_switches_collection_on_at_its_end() {
    let mut collector = Collector::new();
    enable(&mut collector);
    let guard = CoverageGuard::new(&mut collector);
    disable(&mut collector);
    guard.release(&mut collector);
    assert!(!is_enabled(&collector));
}

#[test]
fn guard_keeps_hits_and_fresh_guard_drops_them() {
    let mut collector = Collector::new();
    enable(&mut collector);
    record_hit(&mut collector, 1, probe_kind::LINE);
    let guard = CoverageGuard::new(&mut collector);
    assert_eq!(collector.data.get_hit_count(1), 1);
    guard.release(&mut collector);
    let fresh = CoverageGuard::new_fresh(&mut collector);
    assert_eq!(collector.data.get_hit_count(1), 0);
    assert!(fresh.was_enabled);
    fresh.release(&mut collector);
}

#[test]
fn export_and_reset_at_a_given_time() {
    let mut collector = Collector::default();
    coverage::collector::reset_at(&mut collector, 1_000);
    enable(&mut collector);
    record_hit(&mut collector, 1, probe_kind::LINE);
    let data = coverage::collector::export_coverage_at(&mut collector, 1_500);
    assert_eq!(data.start_time, 1_000);
    assert_eq!(data.end_time, 1_500);
    assert_eq!(data.get_hit_count(1), 1);
    assert_eq!(collector.data.end_time, 1_500);
    // a clock that went back does not put the end before the start
    let early = coverage::collector::export_coverage_at(&mut collector, 900);
    assert_eq!(early.end_time, 1_000);
    coverage::collector::reset_at(&mut collector, 2_000);
    assert!(is_enabled(&collector));
    assert_eq!(collector.data.start_time, 2_000);
    assert_eq!(collector.data.end_time, 0);
    assert_eq!(collector.data.probes_hit(), 0);
}
