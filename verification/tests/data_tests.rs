use coverage::data::probe_kind;
use coverage::data::probe_kind::ProbeKind;
use coverage::data::{CoverageData, ProbeHit};

#[test]
fn test_probe_hit_creation() {
    let hit = ProbeHit::new(42, probe_kind::LINE);
    assert_eq!(hit.probe_id, 42);
    assert_eq!(hit.kind, probe_kind::LINE);
    assert_eq!(hit.count, 1);
}

#[test]
fn test_coverage_data_record_hit() {
    let mut data = CoverageData::new();
    data.record_hit(1, probe_kind::LINE);
    data.record_hit(1, probe_kind::LINE);
    data.record_hit(2, probe_kind::FUNCTION_ENTRY);

    assert_eq!(data.get_hit_count(1), 2);
    assert_eq!(data.get_hit_count(2), 1);
    assert_eq!(data.get_hit_count(3), 0);
}

#[test]
fn test_coverage_data_merge() {
    let mut data1 = CoverageData::new();
    data1.record_hit(1, probe_kind::LINE);

    let mut data2 = CoverageData::new();
    data2.record_hit(1, probe_kind::LINE);
    data2.record_hit(2, probe_kind::LINE);

    data1.merge(&data2);
    assert_eq!(data1.get_hit_count(1), 2);
    assert_eq!(data1.get_hit_count(2), 1);
}

#[test]
fn test_coverage_data_reset() {
    let mut data = CoverageData::new();
    data.record_hit(1, probe_kind::LINE);
    assert_eq!(data.probes_hit(), 1);

    data.reset();
    assert_eq!(data.probes_hit(), 0);
}

#[test]
fn probe_hit_with_count() {
    let hit = ProbeHit::with_count(7, probe_kind::BRANCH_FALSE, 12);
    assert_eq!(hit, ProbeHit { probe_id: 7, kind: 3, count: 12 });
}

#[test]
fn probe_kinds_are_zero_to_three() {
    assert_eq!(probe_kind::LINE, 0);
    assert_eq!(probe_kind::FUNCTION_ENTRY, 1);
    assert_eq!(probe_kind::BRANCH_TRUE, 2);
    assert_eq!(probe_kind::BRANCH_FALSE, 3);
}

#[test]
fn new_data_is_empty_and_unfinished() {
    let data = CoverageData::new();
    assert_eq!(data.probes_hit(), 0);
    assert_eq!(data.end_time, 0);
    let fixed = CoverageData::started_at(1234);
    assert_eq!(fixed.start_time, 1234);
    assert_eq!(fixed.end_time, 0);
    assert_eq!(fixed.probes_hit(), 0);
    let default = CoverageData::default();
    assert_eq!(default.probes_hit(), 0);
    assert_eq!(default.end_time, 0);
}

#[test]
fn a_known_probe_keeps_its_kind() {
    let mut data = CoverageData::started_at(0);
    data.record_hit(1, probe_kind::BRANCH_TRUE);
    data.record_hit(1, probe_kind::LINE);
    assert_eq!(data.probe_hits[&1], ProbeHit { probe_id: 1, kind: probe_kind::BRANCH_TRUE, count: 2 });
}

#[test]
fn counts_stop_at_the_ceiling() {
    let mut data = CoverageData::from_probe_hits(vec![ProbeHit::with_count(1, 0, u64::MAX - 1)]);
    data.record_hit(1, 0);
    assert_eq!(data.get_hit_count(1), u64::MAX);
    data.record_hit(1, 0);
    assert_eq!(data.get_hit_count(1), u64::MAX);

    let other = CoverageData::from_probe_hits(vec![ProbeHit::with_count(1, 0, 5)]);
    data.merge(&other);
    assert_eq!(data.get_hit_count(1), u64::MAX);
}

#[test]
fn finish_sets_the_end() {
    let mut data = CoverageData::started_at(100);
    data.finish_at(250);
    assert_eq!(data.end_time, 250);
    assert_eq!(data.start_time, 100);
    // a clock that went back does not put the end before the start
    data.finish_at(40);
    assert_eq!(data.end_time, 100);
    let mut live = CoverageData::new();
    live.record_hit(1, 0);
    live.finish();
    assert!(live.end_time >= live.start_time);
    assert_eq!(live.get_hit_count(1), 1);
}

#[test]
fn reset_starts_anew() {
    let mut data = CoverageData::started_at(100);
    data.record_hit(1, probe_kind::LINE);
    data.finish_at(200);
    data.reset_at(300);
    assert_eq!(data.probes_hit(), 0);
    assert_eq!(data.start_time, 300);
    assert_eq!(data.end_time, 0);
    assert_eq!(data.get_hit_count(1), 0);
    data.reset();
    assert_eq!(data.end_time, 0);
    assert_eq!(data.probes_hit(), 0);
}

fn data_of(start: u64, end: u64, hits: &[(u64, u8, u64)]) -> CoverageData {
    let mut data = CoverageData::from_probe_hits(
        hits.iter().map(|h| ProbeHit::with_count(h.0, h.1, h.2)).collect(),
    );
    data.start_time = start;
    data.end_time = end;
    data
}

#[test]
fn merge_adds_counts_and_spans_the_times() {
    let mut a = data_of(100, 200, &[(1, 0, 3), (2, 1, 4)]);
    let b = data_of(50, 150, &[(2, 0, 10), (3, 2, 1)]);
    a.merge(&b);
    assert_eq!(a.get_hit_count(1), 3);
    assert_eq!(a.get_hit_count(2), 14);
    assert_eq!(a.get_hit_count(3), 1);
    assert_eq!(a.probes_hit(), 3);
    // the record that was there keeps its kind
    assert_eq!(a.probe_hits[&2].kind, 1);
    assert_eq!(a.probe_hits[&3], ProbeHit { probe_id: 3, kind: 2, count: 1 });
    assert_eq!(a.start_time, 50);
    assert_eq!(a.end_time, 200);
}

#[test]
fn merge_is_commutative_on_counts() {
    let a = data_of(10, 20, &[(1, 0, 3), (2, 0, 4), (5, 0, u64::MAX)]);
    let b = data_of(5, 30, &[(2, 0, 10), (3, 0, 1), (5, 0, 9)]);
    let mut ab = a.clone();
    ab.merge(&b);
    let mut ba = b.clone();
    ba.merge(&a);
    for id in 0..7u64 {
        assert_eq!(ab.get_hit_count(id), ba.get_hit_count(id));
    }
    assert_eq!(ab.probes_hit(), ba.probes_hit());
    assert_eq!(ab.start_time, 5);
    assert_eq!(ba.start_time, 5);
    assert_eq!(ab.end_time, 30);
    assert_eq!(ba.end_time, 30);
}

#[test]
fn merge_is_associative_on_counts() {
    let a = data_of(10, 20, &[(1, 0, 3), (2, 0, 4), (5, 0, u64::MAX - 3)]);
    let b = data_of(5, 30, &[(2, 0, 10), (3, 0, 1), (5, 0, 2)]);
    let c = data_of(7, 0, &[(1, 0, 1), (3, 0, 1), (4, 0, 8), (5, 0, 2)]);
    let mut left = a.clone();
    left.merge(&b);
    left.merge(&c);
    let mut bc = b.clone();
    bc.merge(&c);
    let mut right = a.clone();
    right.merge(&bc);
    for id in 0..7u64 {
        assert_eq!(left.get_hit_count(id), right.get_hit_count(id));
    }
    assert_eq!(left.get_hit_count(1), 4);
    assert_eq!(left.get_hit_count(2), 14);
    assert_eq!(left.get_hit_count(3), 2);
    assert_eq!(left.get_hit_count(4), 8);
    assert_eq!(left.get_hit_count(5), u64::MAX);
    assert_eq!(left.start_time, right.start_time);
    assert_eq!(left.end_time, right.end_time);
    assert_eq!(left.start_time, 5);
    assert_eq!(left.end_time, 30);
}

#[test]
fn merge_with_empty_data_changes_no_count() {
    let mut a = data_of(10, 20, &[(1, 0, 3)]);
    let empty = data_of(10, 20, &[]);
    a.merge(&empty);
    assert_eq!(a.get_hit_count(1), 3);
    assert_eq!(a.probes_hit(), 1);
}

#[test]
fn hits_come_out_in_ascending_order_of_id() {
    let data = data_of(0, 0, &[(30, 0, 1), (10, 1, 2), (20, 2, 3), (5, 3, 4)]);
    let copies = data.to_probe_hits_vec();
    assert_eq!(
        copies,
        vec![
            ProbeHit::with_count(5, 3, 4),
            ProbeHit::with_count(10, 1, 2),
            ProbeHit::with_count(20, 2, 3),
            ProbeHit::with_count(30, 0, 1),
        ]
    );
    let borrowed = data.iter();
    assert_eq!(borrowed.len(), 4);
    assert_eq!(borrowed[0].probe_id, 5);
    assert_eq!(borrowed[3].probe_id, 30);
    assert_eq!(*borrowed[2], ProbeHit::with_count(20, 2, 3));
    assert!(CoverageData::started_at(0).iter().is_empty());
    assert!(CoverageData::started_at(0).to_probe_hits_vec().is_empty());
}

#[test]
fn from_probe_hits_keeps_the_later_of_two() {
    let data = CoverageData::from_probe_hits(vec![
        ProbeHit::with_count(1, 0, 3),
        ProbeHit::with_count(2, 1, 4),
        ProbeHit::with_count(1, 2, 9),
    ]);
    assert_eq!(data.probes_hit(), 2);
    assert_eq!(data.get_hit_count(1), 9);
    assert_eq!(data.probe_hits[&1].kind, 2);
    assert_eq!(data.get_hit_count(2), 4);
    assert_eq!(data.end_time, 0);
}

#[test]
fn hits_survive_the_way_out_and_back() {
    let data = data_of(0, 0, &[(30, 0, 1), (10, 1, 2), (20, 2, 3)]);
    let back = CoverageData::from_probe_hits(data.to_probe_hits_vec());
    assert_eq!(back.probe_hits, data.probe_hits);
}

#[test]
fn probe_kinds_by_name() {
    assert_eq!(ProbeKind::Line.code(), 0);
    assert_eq!(ProbeKind::FunctionEntry.code(), 1);
    assert_eq!(ProbeKind::BranchTrue.code(), 2);
    assert_eq!(ProbeKind::BranchFalse.code(), 3);
    assert_eq!(ProbeKind::from_code(0), Some(ProbeKind::Line));
    assert_eq!(ProbeKind::from_code(1), Some(ProbeKind::FunctionEntry));
    assert_eq!(ProbeKind::from_code(2), Some(ProbeKind::BranchTrue));
    assert_eq!(ProbeKind::from_code(3), Some(ProbeKind::BranchFalse));
    assert_eq!(ProbeKind::from_code(4), None);
    assert_eq!(ProbeKind::from_code(255), None);
    for code in 0..=3u8 {
        assert_eq!(ProbeKind::from_code(code).map(|kind| kind.code()), Some(code));
    }
    assert_eq!(ProbeHit::new(1, 2).probe_kind(), Some(ProbeKind::BranchTrue));
    assert_eq!(ProbeHit::new(1, 9).probe_kind(), None);
}
