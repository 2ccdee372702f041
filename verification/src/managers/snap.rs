//! The universal-package adapter.
//!
//! Registry-search records are five whitespace-separated fields,
//! `name version _ _ description`, with the description running to the end
//! of the line; the installed list reads `name version _`. Candidate lines
//! begin with the queried name followed by a space, so substring matches
//! never qualify, and the column header line never matches a real name.

use vstd::prelude::*;
use vstd::utf8::valid_utf8;
use crate::managers::{around_pkg, cap_or_empty, first_prefixed_scan, first_prefixed_scan_exec, get_cap, mk_result, out_lines};
use crate::model::{not_found_model, version_delta, AdapterError, ErrorModel, Manager, PackageResult, ResultModel, Status};
use crate::model::delta_chars;
use crate::output::{split_output, RawLines};
use crate::text::str_to_chars;

verus! {

/// The `available` result of the universal-package adapter.
pub open spec fn snap_available(pkg: Seq<char>, latest: Seq<char>, desc: Seq<char>) -> ResultModel {
    ResultModel {
        manager: Manager::Snap,
        package: pkg,
        version: latest,
        desc,
        repo: Seq::empty(),
        status: Status::Available,
    }
}

/// Reconciles the installed list (`name version _` records) with a found
/// registry record.
pub open spec fn snap_reconcile(
    pkg: Seq<char>,
    latest: Seq<char>,
    desc: Seq<char>,
    inst: Seq<u8>,
) -> Result<ResultModel, ErrorModel> {
    if inst.len() == 0 {
        Ok(snap_available(pkg, latest, desc))
    } else if !valid_utf8(inst) {
        Err(ErrorModel::Decode)
    } else {
        match first_prefixed_scan(out_lines(inst), pkg + " "@, pkg + " {} {}"@) {
            Err(e) => Err(e),
            Ok(None) => Ok(snap_available(pkg, latest, desc)),
            Ok(Some(ic)) => Ok(ResultModel {
                manager: Manager::Snap,
                package: pkg,
                version: version_delta(cap_or_empty(ic, 0), latest),
                desc,
                repo: Seq::empty(),
                status: Status::Installed,
            }),
        }
    }
}

/// The outcome of the universal-package adapter.
pub open spec fn snap_outcome(pkg: Seq<char>, search: Seq<u8>, inst: Seq<u8>) -> Result<
    ResultModel,
    ErrorModel,
> {
    if search.len() == 0 {
        Ok(not_found_model(Manager::Snap, pkg))
    } else if !valid_utf8(search) {
        Err(ErrorModel::Decode)
    } else {
        match first_prefixed_scan(out_lines(search), pkg + " "@, pkg + " {} {} {} {}"@) {
            Err(e) => Err(e),
            Ok(None) => Ok(not_found_model(Manager::Snap, pkg)),
            Ok(Some(caps)) => snap_reconcile(
                pkg,
                cap_or_empty(caps, 0),
                cap_or_empty(caps, 3),
                inst,
            ),
        }
    }
}

/// Law: on a nonempty package name the universal-package adapter yields
/// exactly one well-formed result naming this manager and the queried
/// package, unless it fails with an adapter error.
pub proof fn lemma_snap_outcome_wf(pkg: Seq<char>, search: Seq<u8>, inst: Seq<u8>)
    requires
        pkg.len() > 0,
    ensures
        snap_outcome(pkg, search, inst) matches Ok(m) ==> m.wf() && m.manager == Manager::Snap
            && m.package == pkg,
{
}

/// Reconciles against the installed list (the executable side of
/// `snap_reconcile`).
fn check_snap_installed(
    package: &str,
    pkg: &Vec<char>,
    latest: &Vec<char>,
    desc: &Vec<char>,
    installed: &Vec<u8>,
) -> (r: Result<PackageResult, AdapterError>)
    requires
        pkg@ == package@,
    ensures
        ({
            let o = snap_reconcile(package@, latest@, desc@, installed@);
            match r {
                Ok(p) => o matches Ok(m) && p@ == m,
                Err(e) => o matches Err(em) && e@ == em,
            }
        }),
{
    let empty_repo: Vec<char> = Vec::new();
    match split_output(installed) {
        RawLines::Empty => Ok(
            mk_result(Manager::Snap, package, Status::Available, latest, desc, &empty_repo),
        ),
        RawLines::Invalid => Err(AdapterError::Decode),
        RawLines::Lines(ls) => {
            let prefix = around_pkg("", pkg, " ");
            let pattern = around_pkg("", pkg, " {} {}");
            proof {
                reveal_strlit("");
                assert(""@ =~= Seq::<char>::empty());
                assert(prefix@ =~= package@ + " "@);
                assert(pattern@ =~= package@ + " {} {}"@);
            }
            match first_prefixed_scan_exec(&ls, &prefix, &pattern) {
                Err(e) => Err(e),
                Ok(None) => Ok(
                    mk_result(
                        Manager::Snap,
                        package,
                        Status::Available,
                        latest,
                        desc,
                        &empty_repo,
                    ),
                ),
                Ok(Some(ic)) => {
                    let iv = get_cap(&ic, 0);
                    let version = delta_chars(&iv, latest);
                    Ok(
                        mk_result(
                            Manager::Snap,
                            package,
                            Status::Installed,
                            &version,
                            desc,
                            &empty_repo,
                        ),
                    )
                },
            }
        },
    }
}

/// Queries the universal-package backend for `package`, given the captured
/// output of its search command and of its installed-list command.
pub fn check_snap(package: &str, search: &Vec<u8>, installed: &Vec<u8>) -> (r: Result<
    PackageResult,
    AdapterError,
>)
    requires
        package@.len() > 0,
    ensures
        ({
            let o = snap_outcome(package@, search@, installed@);
            match r {
                Ok(p) => o matches Ok(m) && p@ == m,
                Err(e) => o matches Err(em) && e@ == em,
            }
        }),
{
    let pkg = str_to_chars(package);
    match split_output(search) {
        RawLines::Empty => Ok(PackageResult::none(Manager::Snap, package)),
        RawLines::Invalid => Err(AdapterError::Decode),
        RawLines::Lines(lines) => {
            let prefix = around_pkg("", &pkg, " ");
            let pattern = around_pkg("", &pkg, " {} {} {} {}");
            proof {
                reveal_strlit("");
                assert(""@ =~= Seq::<char>::empty());
                assert(prefix@ =~= package@ + " "@);
                assert(pattern@ =~= package@ + " {} {} {} {}"@);
            }
            match first_prefixed_scan_exec(&lines, &prefix, &pattern) {
                Err(e) => Err(e),
                Ok(None) => Ok(PackageResult::none(Manager::Snap, package)),
                Ok(Some(caps)) => {
                    let latest = get_cap(&caps, 0);
                    let desc = get_cap(&caps, 3);
                    check_snap_installed(package, &pkg, &latest, &desc, installed)
                },
            }
        },
    }
}

} // verus!
