//! Tests for the text, scanning, output and ranking layers.

use boss::model::{format_version_delta, AdapterError, Manager, PackageResult, Status};
use boss::output::{check_output, OutputError};
use boss::rank::sort_results;
use boss::scan::parse;
use boss::text::reduce_whitespace;

#[test]
fn reduce_whitespace_collapses_runs() {
    assert_eq!(reduce_whitespace("a  \t b"), "a b");
    assert_eq!(reduce_whitespace("  a"), " a");
    assert_eq!(reduce_whitespace("a\n\nb"), "a b");
    assert_eq!(reduce_whitespace("plain"), "plain");
    assert_eq!(reduce_whitespace(""), "");
    assert_eq!(reduce_whitespace(" \t\n "), " ");
}

#[test]
fn reduce_whitespace_handles_unicode_whitespace() {
    assert_eq!(reduce_whitespace("a\u{a0}\u{2003}b"), "a b");
    assert_eq!(reduce_whitespace("a\u{3000}b c"), "a b c");
}

#[test]
fn reduce_whitespace_idempotent() {
    let samples = ["", "  a   b  ", "a\t\n b", "x", " \t ", "many   runs \t here"];
    for s in samples.iter() {
        let once = reduce_whitespace(s);
        let twice = reduce_whitespace(&once);
        assert_eq!(once, twice);
        assert!(!once.contains("  "));
    }
}

#[test]
fn parse_extracts_captures() {
    let caps = parse("nu-parser = \"0.1.0\" # nushell parser", "{} = \"{}\" # {}").unwrap();
    assert_eq!(caps, vec!["nu-parser", "0.1.0", "nushell parser"]);
}

#[test]
fn parse_is_lazy_and_total() {
    assert_eq!(parse("a/b c", "{}/{} {}").unwrap(), vec!["a", "b", "c"]);
    assert_eq!(parse("abc", "{}").unwrap(), vec!["abc"]);
    assert_eq!(parse("", "").unwrap(), Vec::<String>::new());
    assert_eq!(parse("x.y.z (1)", "{}.{}.{} ({})").unwrap(), vec!["x", "y", "z", "1"]);
}

#[test]
fn parse_rejects_mismatches() {
    assert!(parse("no match here", "x{}").is_none());
    assert!(parse("a-b", "{}/{}").is_none());
    assert!(parse("trailing", "trail").is_none());
    assert!(parse("Name:", "Name: {}").is_none());
}

#[test]
fn check_output_splits_nonempty_lines() {
    let lines = check_output(&b"first\n\nsecond\nthird".to_vec()).unwrap();
    assert_eq!(lines, vec!["first", "second", "third"]);
}

#[test]
fn check_output_empty_stream_errors() {
    assert_eq!(check_output(&Vec::new()), Err(OutputError::Empty));
}

#[test]
fn check_output_invalid_text_errors() {
    assert_eq!(check_output(&vec![0xffu8, 0xfe, 0x20]), Err(OutputError::Decode));
}

#[test]
fn version_delta_formats_differing_versions() {
    assert_eq!(format_version_delta("1.2.0", "1.3.0"), "1.2.0 -> 1.3.0");
}

#[test]
fn version_delta_collapses_equal_versions() {
    assert_eq!(format_version_delta("2.0.0", "2.0.0"), "2.0.0");
}

#[test]
fn sort_results_orders_statuses() {
    let results = vec![
        PackageResult::none(Manager::Apt, "foo"),
        PackageResult::some(Manager::Yay, "foo", Status::Installed, "1.0", "", ""),
        PackageResult::some(Manager::Snap, "foo", Status::Available, "2.0", "d", ""),
    ];
    let sorted = sort_results(results);
    let statuses: Vec<Status> = sorted.iter().map(|r| r.status).collect();
    assert_eq!(statuses, vec![Status::Installed, Status::Available, Status::NotFound]);
}

#[test]
fn sort_results_is_stable_and_complete() {
    let results = vec![
        PackageResult::some(Manager::Apt, "foo", Status::Available, "a1", "", ""),
        PackageResult::some(Manager::Yay, "foo", Status::Installed, "i1", "", ""),
        PackageResult::none(Manager::Cargo, "foo"),
        PackageResult::some(Manager::Go, "foo", Status::Available, "a2", "", ""),
        PackageResult::some(Manager::Snap, "foo", Status::Installed, "i2", "", ""),
        PackageResult::none(Manager::Nix, "foo"),
    ];
    let sorted = sort_results(results);
    assert_eq!(sorted.len(), 6);
    let versions: Vec<&str> = sorted.iter().map(|r| r.version.as_str()).collect();
    assert_eq!(versions, vec!["i1", "i2", "a1", "a2", "", ""]);
    let managers: Vec<Manager> = sorted.iter().map(|r| r.manager).collect();
    assert_eq!(
        managers,
        vec![Manager::Yay, Manager::Snap, Manager::Apt, Manager::Go, Manager::Cargo, Manager::Nix]
    );
}

#[test]
fn sort_results_empty_input() {
    let sorted = sort_results(Vec::new());
    assert_eq!(sorted.len(), 0);
}

#[test]
fn result_constructors_populate_fields() {
    let r = PackageResult::some(Manager::Cargo, "pkg", Status::Available, "0.3", "desc", "repo");
    assert_eq!(r.manager, Manager::Cargo);
    assert_eq!(r.package, "pkg");
    assert_eq!(r.status, Status::Available);
    assert_eq!(r.version, "0.3");
    assert_eq!(r.desc, "desc");
    assert_eq!(r.repo, "repo");

    let n = PackageResult::none(Manager::Nix, "pkg");
    assert_eq!(n.status, Status::NotFound);
    assert_eq!(n.package, "pkg");
    assert_eq!(n.version, "");
    assert_eq!(n.desc, "");
    assert_eq!(n.repo, "");
}

#[test]
fn error_messages_name_the_mismatch() {
    assert_eq!(AdapterError::Decode.message(), "output was not valid text");
    let e = AdapterError::Parse { line: "bad line".to_string(), expected: "{} v{}:".to_string() };
    assert_eq!(e.message(), "line `bad line` did not match `{} v{}:`");
}
