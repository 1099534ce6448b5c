use coverage_mon::project::{display_coverage, ProjectDiff};

fn diff(name: &str, covered: i64) -> ProjectDiff {
    ProjectDiff { project_name: name.to_string(), covered }
}

#[test]
fn coverage_text_positive() {
    assert_eq!(display_coverage(&diff("p", 2)), "+2 covered");
}

#[test]
fn coverage_text_negative() {
    assert_eq!(display_coverage(&diff("p", -4)), "-4 covered");
}

#[test]
fn coverage_text_zero() {
    assert_eq!(display_coverage(&diff("p", 0)), "+0 covered");
}

#[test]
fn coverage_text_many_digits() {
    assert_eq!(display_coverage(&diff("p", -1234567890)), "-1234567890 covered");
    assert_eq!(display_coverage(&diff("p", 1048576)), "+1048576 covered");
}

#[test]
fn coverage_text_extremes() {
    assert_eq!(display_coverage(&diff("p", i64::MAX)), "+9223372036854775807 covered");
    assert_eq!(display_coverage(&diff("p", i64::MIN)), "-9223372036854775808 covered");
}
