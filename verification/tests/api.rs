use coverage_mon::api::{parse_project_diff, parse_projects};
use coverage_mon::project::CoverageMonError;

#[test]
fn diff_response_yields_name_and_delta() {
    let d = parse_project_diff("auth-svc", "{\"diff-covered\": -4}").unwrap();
    assert_eq!(d.project_name, "auth-svc");
    assert_eq!(d.covered, -4);
}

#[test]
fn diff_response_with_extra_members_still_parses() {
    let d = parse_project_diff("p", "{\"total\": 10, \"diff-covered\": 7}").unwrap();
    assert_eq!(d.covered, 7);
}

#[test]
fn diff_response_without_the_member_is_a_json_error() {
    let r = parse_project_diff("p", "{\"covered\": 1}");
    assert_eq!(r.unwrap_err(), CoverageMonError::JsonError);
}

#[test]
fn diff_response_with_a_non_integer_delta_is_a_json_error() {
    assert_eq!(
        parse_project_diff("p", "{\"diff-covered\": 2.5}").unwrap_err(),
        CoverageMonError::JsonError
    );
    assert_eq!(
        parse_project_diff("p", "{\"diff-covered\": \"4\"}").unwrap_err(),
        CoverageMonError::JsonError
    );
    assert_eq!(
        parse_project_diff("p", "{\"diff-covered\": 9223372036854775808}").unwrap_err(),
        CoverageMonError::JsonError
    );
}

#[test]
fn invalid_json_is_a_json_error() {
    assert_eq!(parse_project_diff("p", "not json").unwrap_err(), CoverageMonError::JsonError);
    assert_eq!(parse_projects("{oops").unwrap_err(), CoverageMonError::JsonError);
}

#[test]
fn list_response_yields_the_names_in_order() {
    let body = "{\"projects\": [{\"project\": \"beta\"}, {\"project\": \"alpha\"}]}";
    let v = parse_projects(body).unwrap();
    assert_eq!(v, vec!["beta".to_string(), "alpha".to_string()]);
}

#[test]
fn empty_project_list_parses_as_empty() {
    let v = parse_projects("{\"projects\": []}").unwrap();
    assert!(v.is_empty());
}

#[test]
fn list_response_of_the_wrong_shape_is_a_json_error() {
    assert_eq!(parse_projects("{\"projects\": 3}").unwrap_err(), CoverageMonError::JsonError);
    assert_eq!(parse_projects("{\"items\": []}").unwrap_err(), CoverageMonError::JsonError);
    assert_eq!(
        parse_projects("{\"projects\": [{\"project\": \"a\"}, {\"name\": \"b\"}]}").unwrap_err(),
        CoverageMonError::JsonError
    );
    assert_eq!(
        parse_projects("{\"projects\": [{\"project\": 1}]}").unwrap_err(),
        CoverageMonError::JsonError
    );
}
