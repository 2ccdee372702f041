//! The module-style language-registry adapter.
//!
//! It shares the quoted-record grammar of the crate-style adapter,
//! `name = "version" # description` and `name vVERSION:`, but names are
//! module paths: a record matches the query when the last `/`-separated
//! segment of its path equals the package name exactly, and the full path
//! is reported as the result's origin. Records are recognized by the
//! grammar itself, so lines that do not parse are skipped rather than
//! reported as grammar mismatches.

use vstd::prelude::*;
use vstd::utf8::valid_utf8;
use crate::managers::{cap_or_empty, get_cap, mk_result, out_lines};
use crate::model::{not_found_model, version_delta, AdapterError, ErrorModel, Manager, PackageResult, ResultModel, Status};
use crate::model::delta_chars;
use crate::output::{split_output, RawLines};
use crate::scan::{scan_chars, scan_spec};
use crate::text::{after_last, after_last_sep, eq_chars, reduce_ws, reduce_ws_chars, str_to_chars, views_of};

verus! {

/// The captures of the first registry-search record whose module path ends
/// in `/pkg` (or is `pkg`), if any: path, version, description.
pub open spec fn go_search_scan(pkg: Seq<char>, lines: Seq<Seq<char>>) -> Option<Seq<Seq<char>>>
    decreases lines.len(),
{
    if lines.len() == 0 {
        None
    } else {
        match scan_spec(reduce_ws(lines[0]), "{} = \"{}\" # {}"@) {
            Some(caps) => {
                if after_last(cap_or_empty(caps, 0), '/') == pkg {
                    Some(caps)
                } else {
                    go_search_scan(pkg, lines.drop_first())
                }
            },
            None => go_search_scan(pkg, lines.drop_first()),
        }
    }
}

/// The captures of the first installed-list record whose module path ends
/// in `/pkg` (or is `pkg`), if any: path, installed version.
pub open spec fn go_inst_scan(pkg: Seq<char>, lines: Seq<Seq<char>>) -> Option<Seq<Seq<char>>>
    decreases lines.len(),
{
    if lines.len() == 0 {
        None
    } else {
        match scan_spec(reduce_ws(lines[0]), "{} v{}:"@) {
            Some(caps) => {
                if after_last(cap_or_empty(caps, 0), '/') == pkg {
                    Some(caps)
                } else {
                    go_inst_scan(pkg, lines.drop_first())
                }
            },
            None => go_inst_scan(pkg, lines.drop_first()),
        }
    }
}

/// The `available` result of the module-registry adapter: the origin field
/// carries the module path.
pub open spec fn go_available(
    pkg: Seq<char>,
    path: Seq<char>,
    latest: Seq<char>,
    desc: Seq<char>,
) -> ResultModel {
    ResultModel {
        manager: Manager::Go,
        package: pkg,
        version: latest,
        desc,
        repo: path,
        status: Status::Available,
    }
}

/// Reconciles the installed list with a found registry record.
pub open spec fn go_reconcile(
    pkg: Seq<char>,
    path: Seq<char>,
    latest: Seq<char>,
    desc: Seq<char>,
    inst: Seq<u8>,
) -> Result<ResultModel, ErrorModel> {
    if inst.len() == 0 {
        Ok(go_available(pkg, path, latest, desc))
    } else if !valid_utf8(inst) {
        Err(ErrorModel::Decode)
    } else {
        match go_inst_scan(pkg, out_lines(inst)) {
            None => Ok(go_available(pkg, path, latest, desc)),
            Some(ic) => Ok(ResultModel {
                manager: Manager::Go,
                package: pkg,
                version: version_delta(cap_or_empty(ic, 1), latest),
                desc,
                repo: path,
                status: Status::Installed,
            }),
        }
    }
}

/// The outcome of the module-registry adapter.
pub open spec fn go_outcome(pkg: Seq<char>, search: Seq<u8>, inst: Seq<u8>) -> Result<
    ResultModel,
    ErrorModel,
> {
    if search.len() == 0 {
        Ok(not_found_model(Manager::Go, pkg))
    } else if !valid_utf8(search) {
        Err(ErrorModel::Decode)
    } else {
        match go_search_scan(pkg, out_lines(search)) {
            None => Ok(not_found_model(Manager::Go, pkg)),
            Some(caps) => go_reconcile(
                pkg,
                cap_or_empty(caps, 0),
                cap_or_empty(caps, 1),
                cap_or_empty(caps, 2),
                inst,
            ),
        }
    }
}

/// Law: on a nonempty package name the module-registry adapter yields
/// exactly one well-formed result naming this manager and the queried
/// package, unless it fails with an adapter error.
pub proof fn lemma_go_outcome_wf(pkg: Seq<char>, search: Seq<u8>, inst: Seq<u8>)
    requires
        pkg.len() > 0,
    ensures
        go_outcome(pkg, search, inst) matches Ok(m) ==> m.wf() && m.manager == Manager::Go
            && m.package == pkg,
{
}

/// Finds the first record matching `pkg` by last path segment, scanning
/// each line's reduced form against `pattern`.
fn go_scan_exec(pkg: &Vec<char>, lines: &Vec<Vec<char>>, pattern: &Vec<char>, search_side: bool) -> (r: Option<
    Vec<Vec<char>>,
>)
    requires
        search_side ==> pattern@ == "{} = \"{}\" # {}"@,
        !search_side ==> pattern@ == "{} v{}:"@,
    ensures
        ({
            let o = if search_side {
                go_search_scan(pkg@, views_of(lines@))
            } else {
                go_inst_scan(pkg@, views_of(lines@))
            };
            match o {
                Some(caps) => r matches Some(v) && views_of(v@) == caps,
                None => r is None,
            }
        }),
{
    let ghost all = views_of(lines@);
    let n = lines.len();
    let mut i: usize = 0;
    proof {
        assert(all.skip(0) =~= all);
    }
    while i < n
        invariant
            i <= n,
            n == lines@.len(),
            all == views_of(lines@),
            search_side ==> pattern@ == "{} = \"{}\" # {}"@,
            !search_side ==> pattern@ == "{} v{}:"@,
            search_side ==> go_search_scan(pkg@, all) == go_search_scan(pkg@, all.skip(i as int)),
            !search_side ==> go_inst_scan(pkg@, all) == go_inst_scan(pkg@, all.skip(i as int)),
        decreases n - i,
    {
        let ghost rem = all.skip(i as int);
        proof {
            assert(rem[0] == all[i as int]);
            assert(rem.drop_first() =~= all.skip(i + 1));
        }
        let red = reduce_ws_chars(&lines[i]);
        match scan_chars(&red, pattern) {
            Some(v) => {
                let path = get_cap(&v, 0);
                let seg = after_last_sep(&path, '/');
                if eq_chars(&seg, pkg) {
                    return Some(v);
                }
            },
            None => {},
        }
        i = i + 1;
    }
    proof {
        assert(all.skip(n as int) =~= Seq::<Seq<char>>::empty());
    }
    None
}

/// Reconciles against the installed list (the executable side of
/// `go_reconcile`).
fn check_go_installed(
    package: &str,
    pkg: &Vec<char>,
    path: &Vec<char>,
    latest: &Vec<char>,
    desc: &Vec<char>,
    installed: &Vec<u8>,
) -> (r: Result<PackageResult, AdapterError>)
    requires
        pkg@ == package@,
    ensures
        ({
            let o = go_reconcile(package@, path@, latest@, desc@, installed@);
            match r {
                Ok(p) => o matches Ok(m) && p@ == m,
                Err(e) => o matches Err(em) && e@ == em,
            }
        }),
{
    match split_output(installed) {
        RawLines::Empty => Ok(
            mk_result(Manager::Go, package, Status::Available, latest, desc, path),
        ),
        RawLines::Invalid => Err(AdapterError::Decode),
        RawLines::Lines(ls) => {
            let ipat = str_to_chars("{} v{}:");
            match go_scan_exec(pkg, &ls, &ipat, false) {
                None => Ok(mk_result(Manager::Go, package, Status::Available, latest, desc, path)),
                Some(ic) => {
                    let iv = get_cap(&ic, 1);
                    let version = delta_chars(&iv, latest);
                    Ok(mk_result(Manager::Go, package, Status::Installed, &version, desc, path))
                },
            }
        },
    }
}

/// Queries the module registry for `package`, given the captured output of
/// its search command and of its installed-list command.
pub fn check_go(package: &str, search: &Vec<u8>, installed: &Vec<u8>) -> (r: Result<
    PackageResult,
    AdapterError,
>)
    requires
        package@.len() > 0,
    ensures
        ({
            let o = go_outcome(package@, search@, installed@);
            match r {
                Ok(p) => o matches Ok(m) && p@ == m,
                Err(e) => o matches Err(em) && e@ == em,
            }
        }),
{
    let pkg = str_to_chars(package);
    match split_output(search) {
        RawLines::Empty => Ok(PackageResult::none(Manager::Go, package)),
        RawLines::Invalid => Err(AdapterError::Decode),
        RawLines::Lines(lines) => {
            let spat = str_to_chars("{} = \"{}\" # {}");
            match go_scan_exec(&pkg, &lines, &spat, true) {
                None => Ok(PackageResult::none(Manager::Go, package)),
                Some(caps) => {
                    let path = get_cap(&caps, 0);
                    let latest = get_cap(&caps, 1);
                    let desc = get_cap(&caps, 2);
                    check_go_installed(package, &pkg, &path, &latest, &desc, installed)
                },
            }
        },
    }
}

} // verus!
