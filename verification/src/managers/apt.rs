//! The system-package adapter.
//!
//! Search output is a key/value block: the package exists when some line is
//! exactly `Package: <name>`, and the first `Version:` and `Description:`
//! lines carry the registry fields. The installed list has one record per
//! package, `name/suite version arch [flags]`; the package counts as
//! installed when its record's bracketed flags contain `installed`.

use vstd::prelude::*;
use vstd::utf8::valid_utf8;
use crate::managers::{
    around_pkg, cap_or_empty, first_prefixed_scan, first_prefixed_scan_exec, get_cap, line_exists,
    line_exists_exec, mk_result, out_lines, scan_first, scan_first_exec,
};
use crate::model::{
    not_found_model, version_delta, AdapterError, ErrorModel, Manager, PackageResult, ResultModel,
    Status,
};
use crate::model::delta_chars;
use crate::output::{split_output, RawLines};
use crate::text::{chars_to_string, contains_exec, contains_seq, str_to_chars};

verus! {

/// The `available` result of the system-package adapter.
pub open spec fn apt_available(pkg: Seq<char>, latest: Seq<char>, desc: Seq<char>) -> ResultModel {
    ResultModel {
        manager: Manager::Apt,
        package: pkg,
        version: latest,
        desc,
        repo: Seq::empty(),
        status: Status::Available,
    }
}

/// Reconciles the installed-list output with a found registry record: an
/// empty list means nothing is installed, a record whose flags contain
/// `installed` makes the package installed with a delta-formatted version.
pub open spec fn apt_reconcile(
    pkg: Seq<char>,
    latest: Seq<char>,
    desc: Seq<char>,
    inst: Seq<u8>,
) -> Result<ResultModel, ErrorModel> {
    if inst.len() == 0 {
        Ok(apt_available(pkg, latest, desc))
    } else if !valid_utf8(inst) {
        Err(ErrorModel::Decode)
    } else {
        match first_prefixed_scan(out_lines(inst), pkg + "/"@, pkg + "/{} {} {} [{}]"@) {
            Err(e) => Err(e),
            Ok(None) => Ok(apt_available(pkg, latest, desc)),
            Ok(Some(caps)) => {
                if contains_seq(cap_or_empty(caps, 3), "installed"@) {
                    Ok(ResultModel {
                        manager: Manager::Apt,
                        package: pkg,
                        version: version_delta(cap_or_empty(caps, 1), latest),
                        desc,
                        repo: Seq::empty(),
                        status: Status::Installed,
                    })
                } else {
                    Ok(apt_available(pkg, latest, desc))
                }
            },
        }
    }
}

/// The outcome of the system-package adapter: empty search output means not
/// found, undecodable output is an error, a search block without an exact
/// `Package:` line is not found, and a found record is reconciled against
/// the installed list.
pub open spec fn apt_outcome(pkg: Seq<char>, search: Seq<u8>, inst: Seq<u8>) -> Result<
    ResultModel,
    ErrorModel,
> {
    if search.len() == 0 {
        Ok(not_found_model(Manager::Apt, pkg))
    } else if !valid_utf8(search) {
        Err(ErrorModel::Decode)
    } else {
        let lines = out_lines(search);
        if !line_exists(lines, "Package: "@ + pkg) {
            Ok(not_found_model(Manager::Apt, pkg))
        } else {
            match scan_first(lines, "Version: {}"@) {
                None => Err(ErrorModel::Parse { line: Seq::empty(), expected: "Version: {}"@ }),
                Some(vc) => {
                    let desc = match scan_first(lines, "Description: {}"@) {
                        None => Seq::<char>::empty(),
                        Some(dc) => cap_or_empty(dc, 0),
                    };
                    apt_reconcile(pkg, cap_or_empty(vc, 0), desc, inst)
                },
            }
        }
    }
}

/// Law: on a nonempty package name the system-package adapter yields
/// exactly one well-formed result naming this manager and the queried
/// package, unless it fails with an adapter error.
pub proof fn lemma_apt_outcome_wf(pkg: Seq<char>, search: Seq<u8>, inst: Seq<u8>)
    requires
        pkg.len() > 0,
    ensures
        apt_outcome(pkg, search, inst) matches Ok(m) ==> m.wf() && m.manager == Manager::Apt
            && m.package == pkg,
{
}

/// Reconciles against the installed list (the executable side of
/// `apt_reconcile`).
fn check_apt_installed(
    package: &str,
    pkg: &Vec<char>,
    latest: &Vec<char>,
    desc: &Vec<char>,
    installed: &Vec<u8>,
) -> (r: Result<PackageResult, AdapterError>)
    requires
        pkg@ == package@,
    ensures
        ({
            let o = apt_reconcile(package@, latest@, desc@, installed@);
            match r {
                Ok(p) => o matches Ok(m) && p@ == m,
                Err(e) => o matches Err(em) && e@ == em,
            }
        }),
{
    let empty_repo: Vec<char> = Vec::new();
    match split_output(installed) {
        RawLines::Empty => Ok(
            mk_result(Manager::Apt, package, Status::Available, latest, desc, &empty_repo),
        ),
        RawLines::Invalid => Err(AdapterError::Decode),
        RawLines::Lines(ls) => {
            let prefix = around_pkg("", pkg, "/");
            let pattern = around_pkg("", pkg, "/{} {} {} [{}]");
            proof {
                reveal_strlit("");
                assert(""@ =~= Seq::<char>::empty());
                assert(prefix@ =~= package@ + "/"@);
                assert(pattern@ =~= package@ + "/{} {} {} [{}]"@);
            }
            match first_prefixed_scan_exec(&ls, &prefix, &pattern) {
                Err(e) => Err(e),
                Ok(None) => Ok(
                    mk_result(Manager::Apt, package, Status::Available, latest, desc, &empty_repo),
                ),
                Ok(Some(caps)) => {
                    let flags = get_cap(&caps, 3);
                    let needle = str_to_chars("installed");
                    if contains_exec(&flags, &needle) {
                        let iv = get_cap(&caps, 1);
                        let version = delta_chars(&iv, latest);
                        Ok(
                            mk_result(
                                Manager::Apt,
                                package,
                                Status::Installed,
                                &version,
                                desc,
                                &empty_repo,
                            ),
                        )
                    } else {
                        Ok(
                            mk_result(
                                Manager::Apt,
                                package,
                                Status::Available,
                                latest,
                                desc,
                                &empty_repo,
                            ),
                        )
                    }
                },
            }
        },
    }
}

/// Queries the system package manager for `package`, given the captured
/// output of its registry-search command and of its installed-list command.
pub fn check_apt(package: &str, search: &Vec<u8>, installed: &Vec<u8>) -> (r: Result<
    PackageResult,
    AdapterError,
>)
    requires
        package@.len() > 0,
    ensures
        ({
            let o = apt_outcome(package@, search@, installed@);
            match r {
                Ok(p) => o matches Ok(m) && p@ == m,
                Err(e) => o matches Err(em) && e@ == em,
            }
        }),
{
    let pkg = str_to_chars(package);
    match split_output(search) {
        RawLines::Empty => Ok(PackageResult::none(Manager::Apt, package)),
        RawLines::Invalid => Err(AdapterError::Decode),
        RawLines::Lines(lines) => {
            let target = around_pkg("Package: ", &pkg, "");
            proof {
                reveal_strlit("");
                assert(""@ =~= Seq::<char>::empty());
                assert(target@ =~= "Package: "@ + package@);
            }
            if !line_exists_exec(&lines, &target) {
                Ok(PackageResult::none(Manager::Apt, package))
            } else {
                let vpat = str_to_chars("Version: {}");
                match scan_first_exec(&lines, &vpat) {
                    None => Err(
                        AdapterError::Parse {
                            line: String::new(),
                            expected: chars_to_string(&vpat),
                        },
                    ),
                    Some(vc) => {
                        let latest = get_cap(&vc, 0);
                        let dpat = str_to_chars("Description: {}");
                        let desc = match scan_first_exec(&lines, &dpat) {
                            None => Vec::new(),
                            Some(dc) => get_cap(&dc, 0),
                        };
                        check_apt_installed(package, &pkg, &latest, &desc, installed)
                    },
                }
            }
        },
    }
}

} // verus!
