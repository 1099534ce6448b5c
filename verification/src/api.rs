//! Extraction of project names and coverage deltas from the coverage API's
//! JSON responses. The JSON tree itself is serde_json's; each call into it
//! stands behind a trusted wrapper whose contract names what the call
//! returns, and the extraction logic around the calls is verified.

use vstd::prelude::*;

use crate::project::{CoverageMonError, ProjectDiff};

verus! {

#[verifier::external_type_specification]
#[verifier::external_body]
pub struct ExValue(serde_json::Value);

/// What parsing a text as a JSON document yields: the parsed tree, or
/// nothing when the text is not valid JSON. A function of the text alone.
pub uninterp spec fn json_parsed(s: Seq<char>) -> Option<serde_json::Value>;

/// What looking a key up in a JSON value yields: the member of that name
/// when the value is an object holding one, otherwise nothing.
pub uninterp spec fn json_field(v: serde_json::Value, key: Seq<char>) -> Option<serde_json::Value>;

/// What reading a JSON value as a signed 64-bit integer yields: its value
/// when it is an integer number in that range, otherwise nothing.
pub uninterp spec fn json_as_int(v: serde_json::Value) -> Option<int>;

/// What reading a JSON value as a string yields: its characters when it is
/// a JSON string, otherwise nothing.
pub uninterp spec fn json_as_text(v: serde_json::Value) -> Option<Seq<char>>;

/// What reading a JSON value as an array yields: its elements in order when
/// it is a JSON array, otherwise nothing.
pub uninterp spec fn json_items(v: serde_json::Value) -> Option<Seq<serde_json::Value>>;

/// Relies on serde_json::from_str::<Value>: parses the text into a JSON
/// tree or fails, deciding by the text alone.
#[verifier::external_body]
fn parse_value(s: &str) -> (r: Option<serde_json::Value>)
    ensures
        r == json_parsed(s@),
{
    serde_json::from_str::<serde_json::Value>(s).ok()
}

/// Relies on serde_json::Value::get with a string key: looks the key up if
/// the value is an object, returning the member or nothing.
#[verifier::external_body]
fn get_field<'a>(v: &'a serde_json::Value, key: &str) -> (r: Option<&'a serde_json::Value>)
    ensures
        match r {
            Some(f) => json_field(*v, key@) == Some(*f),
            None => json_field(*v, key@) is None,
        },
{
    v.get(key)
}

/// Relies on serde_json::Value::as_i64: the value as a signed 64-bit
/// integer, if it is an integer number in range.
#[verifier::external_body]
fn value_as_i64(v: &serde_json::Value) -> (r: Option<i64>)
    ensures
        match r {
            Some(n) => json_as_int(*v) == Some(n as int),
            None => json_as_int(*v) is None,
        },
{
    v.as_i64()
}

/// Relies on serde_json::Value::as_str: the value's characters, if it is a
/// JSON string.
#[verifier::external_body]
fn value_as_str<'a>(v: &'a serde_json::Value) -> (r: Option<&'a str>)
    ensures
        match r {
            Some(s) => json_as_text(*v) == Some(s@),
            None => json_as_text(*v) is None,
        },
{
    v.as_str()
}

/// Relies on serde_json::Value::as_array: the value's elements, if it is a
/// JSON array.
#[verifier::external_body]
fn value_as_array<'a>(v: &'a serde_json::Value) -> (r: Option<&'a Vec<serde_json::Value>>)
    ensures
        match r {
            Some(items) => json_items(*v) == Some(items@),
            None => json_items(*v) is None,
        },
{
    v.as_array()
}

/// The coverage delta a diff response body carries at its `diff-covered`
/// member, or nothing when the body has no such integer member.
pub open spec fn spec_diff_covered(body: Seq<char>) -> Option<int> {
    match json_parsed(body) {
        Some(root) => match json_field(root, "diff-covered"@) {
            Some(f) => json_as_int(f),
            None => None,
        },
        None => None,
    }
}

/// The name a project entry of a list response carries at its `project`
/// member, or nothing when the entry has no such string member.
pub open spec fn spec_entry_name(entry: serde_json::Value) -> Option<Seq<char>> {
    match json_field(entry, "project"@) {
        Some(f) => json_as_text(f),
        None => None,
    }
}

/// The names of a sequence of project entries, or nothing as soon as one
/// entry carries no name.
pub open spec fn spec_entry_names(entries: Seq<serde_json::Value>) -> Option<Seq<Seq<char>>>
    decreases entries.len(),
{
    if entries.len() == 0 {
        Some(Seq::empty())
    } else {
        match spec_entry_name(entries[0]) {
            Some(name) => match spec_entry_names(entries.drop_first()) {
                Some(rest) => Some(seq![name] + rest),
                None => None,
            },
            None => None,
        }
    }
}

/// The project names a list response body carries under its `projects`
/// array, or nothing when the body is not shaped that way.
pub open spec fn spec_project_names(body: Seq<char>) -> Option<Seq<Seq<char>>> {
    match json_parsed(body) {
        Some(root) => match json_field(root, "projects"@) {
            Some(arr) => match json_items(arr) {
                Some(entries) => spec_entry_names(entries),
                None => None,
            },
            None => None,
        },
        None => None,
    }
}

/// Builds one project's diff from the response body of a per-project
/// statistics request: the project's name together with the integer at the
/// body's `diff-covered` member, or a JSON error when the body is not
/// shaped that way.
pub fn parse_project_diff(proj: &str, body: &str) -> (r: Result<ProjectDiff, CoverageMonError>)
    ensures
        match spec_diff_covered(body@) {
            Some(n) => r matches Ok(d) && d.project_name@ == proj@ && d.covered as int == n,
            None => r matches Err(e) && e == CoverageMonError::JsonError,
        },
{
    let root = match parse_value(body) {
        Some(root) => root,
        None => {
            return Err(CoverageMonError::JsonError);
        },
    };
    let field = match get_field(&root, "diff-covered") {
        Some(field) => field,
        None => {
            return Err(CoverageMonError::JsonError);
        },
    };
    match value_as_i64(field) {
        Some(covered) => Ok(ProjectDiff { project_name: proj.to_owned(), covered }),
        None => Err(CoverageMonError::JsonError),
    }
}

/// Reads the project names from the response body of a project-list
/// request: the string at each entry's `project` member, in response order,
/// or a JSON error when the body is not shaped that way.
#[verifier::loop_isolation(false)]
pub fn parse_projects(body: &str) -> (r: Result<Vec<String>, CoverageMonError>)
    ensures
        match spec_project_names(body@) {
            Some(names) => r matches Ok(v) && v.deep_view() == names,
            None => r matches Err(e) && e == CoverageMonError::JsonError,
        },
{
    let root = match parse_value(body) {
        Some(root) => root,
        None => {
            return Err(CoverageMonError::JsonError);
        },
    };
    let arr = match get_field(&root, "projects") {
        Some(arr) => arr,
        None => {
            return Err(CoverageMonError::JsonError);
        },
    };
    let entries = match value_as_array(arr) {
        Some(entries) => entries,
        None => {
            return Err(CoverageMonError::JsonError);
        },
    };
    let mut names: Vec<String> = Vec::new();
    let mut i: usize = 0;
    proof {
        assert(entries@.skip(0) =~= entries@);
        assert(names.deep_view().len() == 0);
        if spec_entry_names(entries@) is Some {
            assert(names.deep_view() + spec_entry_names(entries@)->0
                =~= spec_entry_names(entries@)->0);
        }
    }
    while i < entries.len()
        invariant
            i <= entries@.len(),
            spec_entry_names(entries@) matches Some(all) ==> ({
                &&& names.deep_view().len() == i
                &&& spec_entry_names(entries@.skip(i as int)) matches Some(rest)
                &&& all == names.deep_view() + rest
            }),
            spec_entry_names(entries@) is None
                ==> spec_entry_names(entries@.skip(i as int)) is None,
        decreases entries@.len() - i,
    {
        let ghost suffix = entries@.skip(i as int);
        proof {
            assert(suffix.len() > 0);
            assert(suffix[0] == entries@[i as int]);
            assert(suffix.drop_first() =~= entries@.skip(i as int + 1));
        }
        let entry = &entries[i];
        let name_field = match get_field(entry, "project") {
            Some(f) => f,
            None => {
                proof {
                    assert(spec_entry_name(suffix[0]) is None);
                    assert(spec_entry_names(suffix) is None);
                }
                return Err(CoverageMonError::JsonError);
            },
        };
        let name = match value_as_str(name_field) {
            Some(s) => s,
            None => {
                proof {
                    assert(spec_entry_name(suffix[0]) is None);
                    assert(spec_entry_names(suffix) is None);
                }
                return Err(CoverageMonError::JsonError);
            },
        };
        let ghost prev = names.deep_view();
        names.push(name.to_owned());
        proof {
            assert(names.deep_view() =~= prev.push(name@));
            assert(spec_entry_name(suffix[0]) == Some(name@));
            if spec_entry_names(suffix) is Some {
                assert(spec_entry_names(suffix.drop_first()) is Some);
                let rest = spec_entry_names(suffix.drop_first())->0;
                assert(spec_entry_names(suffix)->0 == seq![name@] + rest);
                assert(prev.push(name@) + rest =~= prev + (seq![name@] + rest));
            } else {
                assert(spec_entry_names(suffix.drop_first()) is None);
            }
        }
        i = i + 1;
    }
    proof {
        assert(entries@.skip(entries@.len() as int) =~= Seq::<serde_json::Value>::empty());
        if spec_entry_names(entries@) is Some {
            assert(spec_entry_names(entries@)->0 =~= names.deep_view());
        }
    }
    Ok(names)
}

} // verus!
