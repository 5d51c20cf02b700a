use coverage::data::probe_kind;
use coverage::data::probe_kind::ProbeKind;
use coverage::map::{CoverageMap, CoverageMapSet, FunctionInfo, ProbeFilter, ProbeLocation};

fn location(line: u32, column: u32, kind: u8) -> ProbeLocation {
    ProbeLocation { line, column, kind, function: None, file: "test.rsx".to_string() }
}

fn function(name: &str, start_line: u32, end_line: u32, entry_probe: u64) -> FunctionInfo {
    FunctionInfo { name: name.to_string(), start_line, end_line, entry_probe }
}

#[test]
fn test_coverage_map_creation() {
    let mut map = CoverageMap::new("test.rsx".to_string());
    map.add_probe(
        1,
        ProbeLocation {
            line: 10,
            column: 1,
            kind: probe_kind::LINE,
            function: Some("main".to_string()),
            file: "test.rsx".to_string(),
        },
    );

    assert_eq!(map.total_probes, 1);
    assert!(map.get_location(1).is_some());
}

#[test]
fn test_probes_for_line() {
    let mut map = CoverageMap::new("test.rsx".to_string());
    map.add_probe(
        1,
        ProbeLocation {
            line: 10,
            column: 1,
            kind: probe_kind::LINE,
            function: None,
            file: "test.rsx".to_string(),
        },
    );
    map.add_probe(
        2,
        ProbeLocation {
            line: 10,
            column: 5,
            kind: probe_kind::BRANCH_TRUE,
            function: None,
            file: "test.rsx".to_string(),
        },
    );

    let probes = map.probes_for_line(10);
    assert_eq!(probes.len(), 2);
}

#[test]
fn a_new_map_is_empty() {
    let map = CoverageMap::new("a.rsx".to_string());
    assert_eq!(map.file, "a.rsx");
    assert_eq!(map.total_probes, 0);
    assert!(map.order.is_empty());
    assert!(map.probes.is_empty());
    assert!(map.functions.is_empty());
    assert!(map.get_location(1).is_none());
    assert!(map.covered_lines().is_empty());
    assert!(map.line_probes().is_empty());
    assert!(map.function_at_line(1).is_none());
}

#[test]
fn a_probe_added_twice_gets_the_new_location() {
    let mut map = CoverageMap::new("test.rsx".to_string());
    map.add_probe(1, location(10, 1, probe_kind::LINE));
    map.add_probe(1, location(11, 2, probe_kind::BRANCH_TRUE));
    assert_eq!(map.total_probes, 1);
    assert_eq!(map.order, vec![1]);
    assert_eq!(map.get_location(1), Some(&location(11, 2, probe_kind::BRANCH_TRUE)));
    assert!(map.get_location(2).is_none());
}

#[test]
fn a_known_probe_keeps_its_place_in_the_order() {
    let mut map = CoverageMap::new("test.rsx".to_string());
    map.add_probe(9, location(1, 1, probe_kind::LINE));
    map.add_probe(3, location(2, 1, probe_kind::LINE));
    map.add_probe(7, location(3, 1, probe_kind::LINE));
    assert_eq!(map.order, vec![9, 3, 7]);
    map.add_probe(3, location(5, 1, probe_kind::LINE));
    assert_eq!(map.order, vec![9, 3, 7]);
    assert_eq!(map.total_probes, 3);
    assert_eq!(ids(&map.line_probes()), vec![9, 3, 7]);
    assert_eq!(map.line_probes()[1], (3, &location(5, 1, probe_kind::LINE)));
    map.add_function(function("f", 1, 2, 9));
    assert_eq!(map.order, vec![9, 3, 7]);
}

#[test]
fn a_probe_that_the_order_lacks_is_not_walked() {
    let mut map = CoverageMap::new("test.rsx".to_string());
    map.add_probe(1, location(1, 1, probe_kind::LINE));
    map.add_probe(2, location(2, 1, probe_kind::LINE));
    map.order = vec![2, 5];
    assert_eq!(ids(&map.line_probes()), vec![2]);
    assert!(map.get_location(1).is_some());
}

fn sample_map() -> CoverageMap {
    let mut map = CoverageMap::new("test.rsx".to_string());
    map.add_probe(30, location(12, 1, probe_kind::LINE));
    map.add_probe(10, location(10, 1, probe_kind::LINE));
    map.add_probe(21, location(11, 5, probe_kind::BRANCH_FALSE));
    map.add_probe(20, location(11, 5, probe_kind::BRANCH_TRUE));
    map.add_probe(5, location(10, 1, probe_kind::FUNCTION_ENTRY));
    map.add_probe(11, location(11, 1, probe_kind::LINE));
    map.add_probe(40, location(12, 3, 9));
    map
}

fn ids(list: &[(u64, &ProbeLocation)]) -> Vec<u64> {
    list.iter().map(|entry| entry.0).collect()
}

#[test]
fn probes_by_kind_come_in_the_order_in_which_they_were_added() {
    let map = sample_map();
    assert_eq!(map.total_probes, 7);
    assert_eq!(map.order, vec![30, 10, 21, 20, 5, 11, 40]);
    assert_eq!(ids(&map.line_probes()), vec![30, 10, 11]);
    assert_eq!(ids(&map.function_probes()), vec![5]);
    assert_eq!(ids(&map.branch_probes()), vec![21, 20]);
    assert_eq!(ids(&map.probes_for_line(10)), vec![10, 5]);
    assert_eq!(ids(&map.probes_for_line(11)), vec![21, 20, 11]);
    assert_eq!(ids(&map.probes_for_line(12)), vec![30, 40]);
    assert!(map.probes_for_line(13).is_empty());
    assert_eq!(ids(&map.select(ProbeFilter::OfKind(9))), vec![40]);
    assert_eq!(ids(&map.select(ProbeFilter::OfKindOnLine(probe_kind::LINE, 11))), vec![11]);
    assert_eq!(ids(&map.select(ProbeFilter::OnLine(12))), vec![30, 40]);
    assert_eq!(ids(&map.select(ProbeFilter::Branch)), vec![21, 20]);
}

#[test]
fn selected_probes_carry_their_locations() {
    let map = sample_map();
    let lines = map.line_probes();
    assert_eq!(lines[0], (30, &location(12, 1, probe_kind::LINE)));
    assert_eq!(lines[2], (11, &location(11, 1, probe_kind::LINE)));
    assert!(ProbeFilter::Branch.keeps(&location(1, 1, probe_kind::BRANCH_FALSE)));
    assert!(!ProbeFilter::Branch.keeps(&location(1, 1, probe_kind::LINE)));
    assert!(!ProbeFilter::OfKindOnLine(0, 2).keeps(&location(1, 1, 0)));
}

#[test]
fn covered_lines_are_sorted_and_without_repeats() {
    let map = sample_map();
    assert_eq!(map.covered_lines(), vec![10, 11, 12]);
    let mut other = CoverageMap::new("b.rsx".to_string());
    other.add_probe(1, location(u32::MAX, 1, 0));
    other.add_probe(2, location(0, 1, 0));
    other.add_probe(3, location(7, 1, 1));
    other.add_probe(4, location(7, 2, 2));
    assert_eq!(other.covered_lines(), vec![0, 7, u32::MAX]);
}

#[test]
fn function_at_line_finds_the_first_range() {
    let mut map = CoverageMap::new("test.rsx".to_string());
    map.add_function(function("outer", 1, 20, 1));
    map.add_function(function("inner", 5, 10, 2));
    map.add_function(function("later", 30, 40, 3));
    assert_eq!(map.functions.len(), 3);
    assert_eq!(map.total_probes, 0);
    assert_eq!(map.function_at_line(1).map(|f| f.name.as_str()), Some("outer"));
    assert_eq!(map.function_at_line(7).map(|f| f.name.as_str()), Some("outer"));
    assert_eq!(map.function_at_line(20).map(|f| f.name.as_str()), Some("outer"));
    assert_eq!(map.function_at_line(30).map(|f| f.name.as_str()), Some("later"));
    assert_eq!(map.function_at_line(40).map(|f| f.entry_probe), Some(3));
    assert!(map.function_at_line(0).is_none());
    assert!(map.function_at_line(25).is_none());
    assert!(map.function_at_line(41).is_none());
}

fn map_with(file: &str, probes: &[(u64, u32)]) -> CoverageMap {
    let mut map = CoverageMap::new(file.to_string());
    for (id, line) in probes {
        map.add_probe(
            *id,
            ProbeLocation {
                line: *line,
                column: 1,
                kind: probe_kind::LINE,
                function: None,
                file: file.to_string(),
            },
        );
    }
    map
}

#[test]
fn a_set_holds_one_map_per_file() {
    let mut set = CoverageMapSet::new();
    assert!(set.files().is_empty());
    assert_eq!(set.total_probes(), 0);
    assert!(set.get("a.rsx").is_none());

    set.add(map_with("a.rsx", &[(1, 10), (2, 11)]));
    set.add(map_with("b.rsx", &[(3, 5)]));
    assert_eq!(set.files(), vec!["a.rsx", "b.rsx"]);
    assert_eq!(set.total_probes(), 3);
    assert_eq!(set.get("a.rsx").map(|m| m.total_probes), Some(2));
    assert_eq!(set.get("b.rsx").map(|m| m.total_probes), Some(1));
    assert!(set.get("c.rsx").is_none());

    // a second map for a file takes the place of the first
    set.add(map_with("a.rsx", &[(7, 1)]));
    assert_eq!(set.files(), vec!["a.rsx", "b.rsx"]);
    assert_eq!(set.total_probes(), 2);
    assert!(set.get("a.rsx").unwrap().get_location(1).is_none());
    assert!(set.get("a.rsx").unwrap().get_location(7).is_some());
}

#[test]
fn a_set_finds_a_probe_in_its_first_map_that_has_it() {
    let mut set = CoverageMapSet::default();
    set.add(map_with("a.rsx", &[(1, 10), (2, 11)]));
    set.add(map_with("b.rsx", &[(2, 99), (3, 5)]));
    assert_eq!(set.get_location(1).map(|l| l.line), Some(10));
    assert_eq!(set.get_location(2).map(|l| (l.line, l.file.as_str())), Some((11, "a.rsx")));
    assert_eq!(set.get_location(3).map(|l| l.line), Some(5));
    assert!(set.get_location(4).is_none());
}

#[test]
fn a_set_made_from_maps_stores_them_in_order() {
    let set = CoverageMapSet::from_maps(vec![
        map_with("a.rsx", &[(1, 10)]),
        map_with("b.rsx", &[(2, 20)]),
        map_with("a.rsx", &[(3, 30), (4, 40)]),
    ]);
    assert_eq!(set.files(), vec!["a.rsx", "b.rsx"]);
    assert_eq!(set.get("a.rsx").map(|m| m.total_probes), Some(2));
    assert_eq!(set.total_probes(), 3);
    assert!(CoverageMapSet::from_maps(vec![]).files().is_empty());
}

#[test]
fn the_probe_total_of_a_set_stops_at_the_ceiling() {
    let mut big = CoverageMap::new("big.rsx".to_string());
    big.total_probes = usize::MAX;
    let mut set = CoverageMapSet::new();
    set.add(big);
    set.add(map_with("b.rsx", &[(3, 5)]));
    assert_eq!(set.total_probes(), usize::MAX);
}

#[test]
fn a_location_names_its_kind() {
    assert_eq!(location(1, 1, probe_kind::LINE).probe_kind(), Some(ProbeKind::Line));
    assert_eq!(location(1, 1, probe_kind::BRANCH_FALSE).probe_kind(), Some(ProbeKind::BranchFalse));
    assert_eq!(location(1, 1, 200).probe_kind(), None);
}
