//! Scenario tests for the per-manager adapters and the orchestrator.

use boss::managers::apt::check_apt;
use boss::managers::cargo::check_cargo;
use boss::managers::go::check_go;
use boss::managers::nix::check_nix;
use boss::managers::snap::check_snap;
use boss::managers::yay::check_yay;
use boss::model::{AdapterError, Manager, Status};
use boss::orchestrate::{all_not_found, run_all, ManagerQuery};

fn bytes(s: &str) -> Vec<u8> {
    s.as_bytes().to_vec()
}

#[test]
fn apt_installed_scenario() {
    let search = bytes("Package: foo\nVersion: 1.0-1\nDescription: a tool\n");
    let installed = bytes("Listing...\nfoo/stable 1.0-1 amd64 [installed]\n");
    let r = check_apt("foo", &search, &installed).unwrap();
    assert_eq!(r.manager, Manager::Apt);
    assert_eq!(r.package, "foo");
    assert_eq!(r.status, Status::Installed);
    assert_eq!(r.version, "1.0-1");
    assert_eq!(r.desc, "a tool");
}

#[test]
fn apt_available_scenario() {
    let search = bytes("Package: foo\nVersion: 1.0-1\nDescription: a tool\n");
    let installed = bytes("Listing...\nbar/stable 2.0 amd64 [installed]\n");
    let r = check_apt("foo", &search, &installed).unwrap();
    assert_eq!(r.status, Status::Available);
    assert_eq!(r.version, "1.0-1");
    assert_eq!(r.desc, "a tool");
}

#[test]
fn apt_version_delta_from_installed_list() {
    let search = bytes("Package: foo\nVersion: 1.3.0\nDescription: a tool\n");
    let installed = bytes("foo/stable 1.2.0 amd64 [installed,automatic]\n");
    let r = check_apt("foo", &search, &installed).unwrap();
    assert_eq!(r.status, Status::Installed);
    assert_eq!(r.version, "1.2.0 -> 1.3.0");
}

#[test]
fn apt_substring_match_is_not_found() {
    let search = bytes("Package: foobar\nVersion: 9\nDescription: other\n");
    let r = check_apt("foo", &search, &Vec::new()).unwrap();
    assert_eq!(r.status, Status::NotFound);
    assert_eq!(r.package, "foo");
    assert_eq!(r.version, "");
}

#[test]
fn apt_missing_version_line_is_parse_error() {
    let search = bytes("Package: foo\nDescription: a tool\n");
    let e = check_apt("foo", &search, &Vec::new()).unwrap_err();
    match e {
        AdapterError::Parse { expected, .. } => assert_eq!(expected, "Version: {}"),
        other => panic!("expected a parse error, got {:?}", other),
    }
}

#[test]
fn apt_malformed_installed_record_is_parse_error() {
    let search = bytes("Package: foo\nVersion: 1.0\n");
    let installed = bytes("foo/stable 1.0 amd64\n");
    let e = check_apt("foo", &search, &installed).unwrap_err();
    assert!(matches!(e, AdapterError::Parse { .. }));
}

#[test]
fn apt_flags_without_installed_mean_available() {
    let search = bytes("Package: foo\nVersion: 1.1\nDescription: a tool\n");
    let installed = bytes("foo/stable 1.0 amd64 [upgradable]\n");
    let r = check_apt("foo", &search, &installed).unwrap();
    assert_eq!(r.status, Status::Available);
    assert_eq!(r.version, "1.1");
}

#[test]
fn cargo_malformed_candidate_is_parse_error() {
    let search = bytes("foo = 1.2.3 # no quotes\n");
    let e = check_cargo("foo", &search, &Vec::new()).unwrap_err();
    assert!(matches!(e, AdapterError::Parse { .. }));
}

#[test]
fn yay_header_without_slash_is_parse_error() {
    let search = bytes("foo 2.1\n    A tool\n");
    let e = check_yay("foo", &search).unwrap_err();
    assert!(matches!(e, AdapterError::Parse { .. }));
}

#[test]
fn nix_decode_error_on_installed_list() {
    let search = bytes("* legacyPackages.x86_64-linux.foo (2.12)\n");
    let e = check_nix("foo", &search, &vec![0xffu8, 0x01]).unwrap_err();
    assert!(matches!(e, AdapterError::Decode));
}

#[test]
fn adapter_decode_error_on_invalid_text() {
    let bad = vec![0xffu8, 0x00, 0x41];
    let e = check_apt("foo", &bad, &Vec::new()).unwrap_err();
    assert!(matches!(e, AdapterError::Decode));
    let e = check_yay("foo", &bad).unwrap_err();
    assert!(matches!(e, AdapterError::Decode));
}

#[test]
fn empty_probe_output_is_not_found_for_every_adapter() {
    let empty: Vec<u8> = Vec::new();
    let checks: Vec<(Manager, Result<boss::model::PackageResult, AdapterError>)> = vec![
        (Manager::Apt, check_apt("foo", &empty, &empty)),
        (Manager::Yay, check_yay("foo", &empty)),
        (Manager::Cargo, check_cargo("foo", &empty, &empty)),
        (Manager::Go, check_go("foo", &empty, &empty)),
        (Manager::Snap, check_snap("foo", &empty, &empty)),
        (Manager::Nix, check_nix("foo", &empty, &empty)),
    ];
    for (m, r) in checks {
        let p = r.unwrap();
        assert_eq!(p.manager, m);
        assert_eq!(p.status, Status::NotFound);
        assert_eq!(p.package, "foo");
        assert_eq!(p.version, "");
        assert_eq!(p.desc, "");
        assert_eq!(p.repo, "");
    }
}

#[test]
fn yay_substring_match_is_not_found() {
    let search = bytes("aur/fooview 1.0-1\n    A viewer for foo\n");
    let r = check_yay("foo", &search).unwrap();
    assert_eq!(r.status, Status::NotFound);
    assert_eq!(r.version, "");
    assert_eq!(r.desc, "");
    assert_eq!(r.repo, "");
}

#[test]
fn yay_reads_second_to_last_line() {
    let search = bytes("aur/other 0.1\n    something else\nextra/foo 2.1\n    A tool for foo\n");
    let r = check_yay("foo", &search).unwrap();
    assert_eq!(r.status, Status::Available);
    assert_eq!(r.version, "2.1");
    assert_eq!(r.repo, "extra");
    assert_eq!(r.desc, "A tool for foo");
}

#[test]
fn yay_installed_marker() {
    let search = bytes("extra/foo 2.1\n    Installed\n");
    let r = check_yay("foo", &search).unwrap();
    assert_eq!(r.status, Status::Installed);
    assert_eq!(r.version, "2.1");
}

#[test]
fn yay_single_line_output_is_parse_error() {
    let search = bytes("just one line\n");
    let e = check_yay("foo", &search).unwrap_err();
    assert!(matches!(e, AdapterError::Parse { .. }));
}

#[test]
fn cargo_available_scenario() {
    let search = bytes("foo = \"1.2.3\"    # A tool\nfoobar = \"9.9\"    # Other\n");
    let r = check_cargo("foo", &search, &Vec::new()).unwrap();
    assert_eq!(r.manager, Manager::Cargo);
    assert_eq!(r.status, Status::Available);
    assert_eq!(r.version, "1.2.3");
    assert_eq!(r.desc, "A tool");
}

#[test]
fn cargo_installed_with_version_delta() {
    let search = bytes("foo = \"1.2.3\"    # A tool\n");
    let installed = bytes("foo v1.0.0:\n    foo\nother v2.0:\n    other\n");
    let r = check_cargo("foo", &search, &installed).unwrap();
    assert_eq!(r.status, Status::Installed);
    assert_eq!(r.version, "1.0.0 -> 1.2.3");
}

#[test]
fn cargo_substring_match_is_not_found() {
    let search = bytes("foobar = \"9.9\"    # Other\n");
    let r = check_cargo("foo", &search, &Vec::new()).unwrap();
    assert_eq!(r.status, Status::NotFound);
}

#[test]
fn go_reports_module_path_as_origin() {
    let search = bytes("github.com/acme/foo = \"v1.2.0\"    # A module\n");
    let r = check_go("foo", &search, &Vec::new()).unwrap();
    assert_eq!(r.manager, Manager::Go);
    assert_eq!(r.status, Status::Available);
    assert_eq!(r.version, "v1.2.0");
    assert_eq!(r.repo, "github.com/acme/foo");
    assert_eq!(r.desc, "A module");
}

#[test]
fn go_installed_matches_last_path_segment() {
    let search = bytes("github.com/acme/foo = \"v1.2.0\"    # A module\n");
    let installed = bytes("github.com/acme/foo v1.1.0:\n");
    let r = check_go("foo", &search, &installed).unwrap();
    assert_eq!(r.status, Status::Installed);
    assert_eq!(r.version, "1.1.0 -> v1.2.0");
    assert_eq!(r.repo, "github.com/acme/foo");
}

#[test]
fn go_segment_mismatch_is_not_found() {
    let search = bytes("github.com/acme/foolib = \"v1.2.0\"    # A module\n");
    let r = check_go("foo", &search, &Vec::new()).unwrap();
    assert_eq!(r.status, Status::NotFound);
}

#[test]
fn snap_available_scenario() {
    let search = bytes("Name  Version  Publisher  Notes  Summary\nfoo  2.0  canonical  -  A universal tool\n");
    let r = check_snap("foo", &search, &Vec::new()).unwrap();
    assert_eq!(r.manager, Manager::Snap);
    assert_eq!(r.status, Status::Available);
    assert_eq!(r.version, "2.0");
    assert_eq!(r.desc, "A universal tool");
}

#[test]
fn snap_installed_scenario() {
    let search = bytes("foo  2.0  canonical  -  A universal tool\n");
    let installed = bytes("Name  Version  Rev\nfoo  1.9  100\n");
    let r = check_snap("foo", &search, &installed).unwrap();
    assert_eq!(r.status, Status::Installed);
    assert_eq!(r.version, "1.9 -> 2.0");
}

#[test]
fn snap_short_record_is_parse_error() {
    let search = bytes("foo 2.0\n");
    let e = check_snap("foo", &search, &Vec::new()).unwrap_err();
    assert!(matches!(e, AdapterError::Parse { .. }));
}

#[test]
fn nix_installed_scenario() {
    let search = bytes("* legacyPackages.x86_64-linux.foo (2.12)\n");
    let installed = bytes("Name: foo\nVersion: 2.12\n");
    let r = check_nix("foo", &search, &installed).unwrap();
    assert_eq!(r.manager, Manager::Nix);
    assert_eq!(r.status, Status::Installed);
    assert_eq!(r.version, "2.12");
    assert_eq!(r.desc, "");
    assert_eq!(r.repo, "");
}

#[test]
fn nix_available_scenario() {
    let search = bytes("* legacyPackages.x86_64-linux.foo (2.12)\n");
    let installed = bytes("Name: bar\n");
    let r = check_nix("foo", &search, &installed).unwrap();
    assert_eq!(r.status, Status::Available);
    assert_eq!(r.version, "2.12");
}

#[test]
fn nix_takes_last_matching_record() {
    let search = bytes(
        "* legacyPackages.x86_64-linux.foo (1.0)\n* legacyPackages.aarch64-linux.foo (2.0)\n",
    );
    let r = check_nix("foo", &search, &Vec::new()).unwrap();
    assert_eq!(r.status, Status::Available);
    assert_eq!(r.version, "2.0");
}

#[test]
fn nix_attribute_mismatch_is_not_found() {
    let search = bytes("* legacyPackages.x86_64-linux.foolib (1.0)\n");
    let r = check_nix("foo", &search, &Vec::new()).unwrap();
    assert_eq!(r.status, Status::NotFound);
}

#[test]
fn nix_malformed_star_line_is_parse_error() {
    let search = bytes("* foo (1.0)\n");
    let e = check_nix("foo", &search, &Vec::new()).unwrap_err();
    assert!(matches!(e, AdapterError::Parse { .. }));
}

#[test]
fn run_all_collects_results_and_failures() {
    let queries = vec![
        ManagerQuery {
            manager: Manager::Apt,
            search: bytes("Package: foo\nVersion: 1.0\n"),
            installed: Vec::new(),
        },
        ManagerQuery { manager: Manager::Yay, search: vec![0xffu8], installed: Vec::new() },
        ManagerQuery { manager: Manager::Snap, search: Vec::new(), installed: Vec::new() },
    ];
    let (results, failures) = run_all("foo", queries);
    assert_eq!(results.len(), 2);
    assert_eq!(results[0].manager, Manager::Apt);
    assert_eq!(results[0].status, Status::Available);
    assert_eq!(results[1].manager, Manager::Snap);
    assert_eq!(results[1].status, Status::NotFound);
    assert_eq!(failures.len(), 1);
    assert_eq!(failures[0].manager, Manager::Yay);
    assert!(matches!(failures[0].error, AdapterError::Decode));
}

#[test]
fn run_all_empty_batch_is_valid() {
    let (results, failures) = run_all("foo", Vec::new());
    assert!(results.is_empty());
    assert!(failures.is_empty());
    assert!(all_not_found(&results));
}

#[test]
fn all_not_found_detects_any_hit() {
    let empty: Vec<u8> = Vec::new();
    let nf = check_apt("foo", &empty, &empty).unwrap();
    let hit = check_yay("foo", &bytes("extra/foo 2.1\n    Installed\n")).unwrap();
    assert!(all_not_found(&vec![]));
    let only_nf = vec![nf];
    assert!(all_not_found(&only_nf));
    let mut mixed = only_nf;
    mixed.push(hit);
    assert!(!all_not_found(&mixed));
}
