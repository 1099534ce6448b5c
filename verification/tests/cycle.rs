use coverage_mon::cycle::{contains_name, filter_excluded, next_snapshot, prepare_projects, sort_names};
use coverage_mon::project::{CoverageMonError, ProjectDiff};
use coverage_mon::render::{render_indicators, IndicatorGrid};

fn names(v: &[&str]) -> Vec<String> {
    v.iter().map(|s| s.to_string()).collect()
}

#[test]
fn filter_drops_exactly_the_excluded_names() {
    let all = names(&["gamma", "alpha", "beta", "alpha"]);
    let excludes = names(&["alpha", "zeta"]);
    let kept = filter_excluded(&all, &excludes);
    assert_eq!(kept, names(&["gamma", "beta"]));
}

#[test]
fn contains_name_looks_at_the_whole_list() {
    let list = names(&["a", "b", "c"]);
    assert!(contains_name(&list, &"b".to_string()));
    assert!(!contains_name(&list, &"d".to_string()));
    assert!(!contains_name(&names(&[]), &"a".to_string()));
}

#[test]
fn sort_orders_lexicographically() {
    let mut v = names(&["pear", "apple", "peach", "apple", "fig"]);
    sort_names(&mut v);
    assert_eq!(v, names(&["apple", "apple", "fig", "peach", "pear"]));
}

#[test]
fn sort_handles_prefixes_and_empty() {
    let mut v = names(&["ab", "a", "abc", ""]);
    sort_names(&mut v);
    assert_eq!(v, names(&["", "a", "ab", "abc"]));
    let mut e: Vec<String> = Vec::new();
    sort_names(&mut e);
    assert!(e.is_empty());
}

#[test]
fn twenty_projects_with_three_excluded_fill_the_grid() {
    // 20 raw names, 3 of them excluded: 17 remain, sorted, and the grid
    // keeps the first 16.
    let mut raw: Vec<String> = Vec::new();
    for i in (1..=20u32).rev() {
        raw.push(format!("proj{:02}", i));
    }
    let excludes = names(&["proj03", "proj11", "proj19"]);
    let (shown, truncated) = prepare_projects(&raw, &excludes);
    assert!(truncated);
    assert_eq!(shown.len(), 16);
    for e in &excludes {
        assert!(!shown.contains(e));
    }
    let mut sorted = shown.clone();
    sorted.sort();
    assert_eq!(shown, sorted);
    // 17 survivors sorted: proj01, 02, 04..10, 12..18; truncation drops proj20.
    assert_eq!(shown.first().unwrap().as_str(), "proj01");
    assert_eq!(shown.last().unwrap().as_str(), "proj18");
    assert!(!shown.contains(&"proj20".to_string()));
}

#[test]
fn short_list_is_not_truncated() {
    let raw = names(&["b", "a"]);
    let (shown, truncated) = prepare_projects(&raw, &names(&[]));
    assert!(!truncated);
    assert_eq!(shown, names(&["a", "b"]));
}

fn snapshot_a() -> Vec<ProjectDiff> {
    vec![
        ProjectDiff { project_name: "auth-svc".to_string(), covered: -4 },
        ProjectDiff { project_name: "billing".to_string(), covered: 2 },
    ]
}

#[test]
fn successful_fetch_replaces_the_snapshot() {
    let fresh = snapshot_a();
    let kept = next_snapshot(Vec::new(), Ok(fresh));
    assert_eq!(kept.len(), 2);
    assert_eq!(kept[0].project_name, "auth-svc");
}

#[test]
fn failed_fetch_keeps_the_previous_snapshot() {
    let last = snapshot_a();
    let kept = next_snapshot(last, Err(CoverageMonError::DataLoadError));
    assert_eq!(kept.len(), 2);
    assert_eq!(kept[0].project_name, "auth-svc");
    assert_eq!(kept[0].covered, -4);
    let kept2 = next_snapshot(kept, Err(CoverageMonError::IoError));
    assert_eq!(kept2[1].project_name, "billing");
}

#[test]
fn grid_and_snapshot_survive_a_failed_cycle() {
    // First cycle succeeds and renders set A; the second cycle's fetch
    // fails, and both the indicator grid and the interaction snapshot
    // still reflect set A afterwards.
    let mut grid = IndicatorGrid::new();
    let set_a = snapshot_a();
    let snap = next_snapshot(Vec::new(), Ok(set_a));
    render_indicators(&snap, &mut grid);
    let first_leds = grid.leds.clone();
    assert!(grid.leds[0]);
    assert!(!grid.leds[1]);

    let snap = next_snapshot(snap, Err(CoverageMonError::DataLoadError));
    render_indicators(&snap, &mut grid);
    assert_eq!(grid.leds, first_leds);
    assert_eq!(snap[0].project_name, "auth-svc");
    assert_eq!(snap[1].project_name, "billing");
}
