//! The Nix-style adapter.
//!
//! Registry-search records read `* attr.path (version)` after whitespace
//! reduction; every starred line is expected to match that grammar, and the
//! last record whose attribute path ends in the queried name wins. The
//! installed list is a profile dump whose `Name: value` lines identify the
//! installed packages.

use vstd::prelude::*;
use vstd::utf8::valid_utf8;
use crate::managers::{cap_or_empty, get_cap, out_lines};
use crate::model::{not_found_model, AdapterError, ErrorModel, Manager, PackageResult, ResultModel, Status};
use crate::output::{split_output, RawLines};
use crate::scan::{scan_chars, scan_spec};
use crate::text::{
    after_last, after_last_sep, begins_with, chars_to_string, contains_exec, contains_seq,
    eq_chars, has_prefix, reduce_ws, reduce_ws_chars, str_to_chars, views_of,
};
use crate::managers::mk_result;

verus! {

/// The version of the last starred search record whose attribute path ends
/// in `pkg`; an error on the first starred line that does not match the
/// record grammar.
pub open spec fn nix_star_scan(pkg: Seq<char>, lines: Seq<Seq<char>>) -> Result<
    Option<Seq<char>>,
    ErrorModel,
>
    decreases lines.len(),
{
    if lines.len() == 0 {
        Ok(None)
    } else {
        let red = reduce_ws(lines[0]);
        if begins_with(red, "* "@) {
            match scan_spec(red, "* {}.{}.{} ({})"@) {
                None => Err(ErrorModel::Parse { line: lines[0], expected: "* {}.{}.{} ({})"@ }),
                Some(caps) => match nix_star_scan(pkg, lines.drop_first()) {
                    Err(e) => Err(e),
                    Ok(Some(v)) => Ok(Some(v)),
                    Ok(None) => {
                        if after_last(cap_or_empty(caps, 2), '.') == pkg {
                            Ok(Some(cap_or_empty(caps, 3)))
                        } else {
                            Ok(None)
                        }
                    },
                },
            }
        } else {
            nix_star_scan(pkg, lines.drop_first())
        }
    }
}

/// Whether some profile line names `pkg`: a line that mentions both
/// `Name:` and the package is expected to match `Name: value`, and the
/// package is installed when such a value equals it exactly.
pub open spec fn nix_name_scan(pkg: Seq<char>, lines: Seq<Seq<char>>) -> Result<bool, ErrorModel>
    decreases lines.len(),
{
    if lines.len() == 0 {
        Ok(false)
    } else {
        let l = lines[0];
        if contains_seq(l, "Name:"@) && contains_seq(l, pkg) {
            match scan_spec(reduce_ws(l), "Name: {}"@) {
                None => Err(ErrorModel::Parse { line: l, expected: "Name: {}"@ }),
                Some(caps) => {
                    if cap_or_empty(caps, 0) == pkg {
                        Ok(true)
                    } else {
                        nix_name_scan(pkg, lines.drop_first())
                    }
                },
            }
        } else {
            nix_name_scan(pkg, lines.drop_first())
        }
    }
}

/// The `available` result of the Nix-style adapter: no description or
/// origin is obtainable from its output.
pub open spec fn nix_available(pkg: Seq<char>, version: Seq<char>) -> ResultModel {
    ResultModel {
        manager: Manager::Nix,
        package: pkg,
        version,
        desc: Seq::empty(),
        repo: Seq::empty(),
        status: Status::Available,
    }
}

/// Reconciles the profile list with a found registry version: an empty
/// profile means nothing is installed.
pub open spec fn nix_reconcile(pkg: Seq<char>, version: Seq<char>, inst: Seq<u8>) -> Result<
    ResultModel,
    ErrorModel,
> {
    if inst.len() == 0 {
        Ok(nix_available(pkg, version))
    } else if !valid_utf8(inst) {
        Err(ErrorModel::Decode)
    } else {
        match nix_name_scan(pkg, out_lines(inst)) {
            Err(e) => Err(e),
            Ok(true) => Ok(ResultModel {
                manager: Manager::Nix,
                package: pkg,
                version,
                desc: Seq::empty(),
                repo: Seq::empty(),
                status: Status::Installed,
            }),
            Ok(false) => Ok(nix_available(pkg, version)),
        }
    }
}

/// The outcome of the Nix-style adapter.
pub open spec fn nix_outcome(pkg: Seq<char>, search: Seq<u8>, inst: Seq<u8>) -> Result<
    ResultModel,
    ErrorModel,
> {
    if search.len() == 0 {
        Ok(not_found_model(Manager::Nix, pkg))
    } else if !valid_utf8(search) {
        Err(ErrorModel::Decode)
    } else {
        match nix_star_scan(pkg, out_lines(search)) {
            Err(e) => Err(e),
            Ok(None) => Ok(not_found_model(Manager::Nix, pkg)),
            Ok(Some(version)) => nix_reconcile(pkg, version, inst),
        }
    }
}

/// Law: on a nonempty package name the Nix-style adapter yields exactly
/// one well-formed result naming this manager and the queried package,
/// unless it fails with an adapter error.
pub proof fn lemma_nix_outcome_wf(pkg: Seq<char>, search: Seq<u8>, inst: Seq<u8>)
    requires
        pkg.len() > 0,
    ensures
        nix_outcome(pkg, search, inst) matches Ok(m) ==> m.wf() && m.manager == Manager::Nix
            && m.package == pkg,
{
}

/// The pending star-scan result, given the best match so far and the scan
/// of the remaining lines.
spec fn star_combine(
    cur: Option<Seq<char>>,
    rem: Result<Option<Seq<char>>, ErrorModel>,
) -> Result<Option<Seq<char>>, ErrorModel> {
    match rem {
        Err(e) => Err(e),
        Ok(Some(v)) => Ok(Some(v)),
        Ok(None) => Ok(cur),
    }
}

/// Scans all starred search lines (the executable side of
/// `nix_star_scan`).
fn nix_star_scan_exec(pkg: &Vec<char>, lines: &Vec<Vec<char>>) -> (r: Result<
    Option<Vec<char>>,
    AdapterError,
>)
    ensures
        ({
            let o = nix_star_scan(pkg@, views_of(lines@));
            match r {
                Ok(None) => o == Ok::<Option<Seq<char>>, ErrorModel>(None),
                Ok(Some(v)) => o == Ok::<Option<Seq<char>>, ErrorModel>(Some(v@)),
                Err(e) => o matches Err(em) && e@ == em,
            }
        }),
{
    let ghost all = views_of(lines@);
    let star = str_to_chars("* ");
    let pat = str_to_chars("* {}.{}.{} ({})");
    let n = lines.len();
    let mut i: usize = 0;
    let mut last: Option<Vec<char>> = None;
    proof {
        assert(all.skip(0) =~= all);
    }
    while i < n
        invariant
            i <= n,
            n == lines@.len(),
            all == views_of(lines@),
            star@ == "* "@,
            pat@ == "* {}.{}.{} ({})"@,
            nix_star_scan(pkg@, all) == star_combine(
                match last {
                    Some(v) => Some(v@),
                    None => None,
                },
                nix_star_scan(pkg@, all.skip(i as int)),
            ),
        decreases n - i,
    {
        let ghost rem = all.skip(i as int);
        proof {
            assert(rem[0] == all[i as int]);
            assert(rem.drop_first() =~= all.skip(i + 1));
        }
        let red = reduce_ws_chars(&lines[i]);
        if has_prefix(&red, &star) {
            match scan_chars(&red, &pat) {
                None => {
                    return Err(
                        AdapterError::Parse {
                            line: chars_to_string(&lines[i]),
                            expected: chars_to_string(&pat),
                        },
                    );
                },
                Some(caps) => {
                    let tail = get_cap(&caps, 2);
                    let seg = after_last_sep(&tail, '.');
                    if eq_chars(&seg, pkg) {
                        last = Some(get_cap(&caps, 3));
                    }
                },
            }
        }
        i = i + 1;
    }
    proof {
        assert(all.skip(n as int) =~= Seq::<Seq<char>>::empty());
    }
    Ok(last)
}

/// Scans the profile list for a `Name:` entry equal to `pkg` (the
/// executable side of `nix_name_scan`).
fn nix_name_scan_exec(pkg: &Vec<char>, lines: &Vec<Vec<char>>) -> (r: Result<bool, AdapterError>)
    ensures
        ({
            let o = nix_name_scan(pkg@, views_of(lines@));
            match r {
                Ok(b) => o == Ok::<bool, ErrorModel>(b),
                Err(e) => o matches Err(em) && e@ == em,
            }
        }),
{
    let ghost all = views_of(lines@);
    let marker = str_to_chars("Name:");
    let pat = str_to_chars("Name: {}");
    let n = lines.len();
    let mut i: usize = 0;
    proof {
        assert(all.skip(0) =~= all);
    }
    while i < n
        invariant
            i <= n,
            n == lines@.len(),
            all == views_of(lines@),
            marker@ == "Name:"@,
            pat@ == "Name: {}"@,
            nix_name_scan(pkg@, all) == nix_name_scan(pkg@, all.skip(i as int)),
        decreases n - i,
    {
        let ghost rem = all.skip(i as int);
        proof {
            assert(rem[0] == all[i as int]);
            assert(rem.drop_first() =~= all.skip(i + 1));
        }
        if contains_exec(&lines[i], &marker) && contains_exec(&lines[i], pkg) {
            let red = reduce_ws_chars(&lines[i]);
            match scan_chars(&red, &pat) {
                None => {
                    return Err(
                        AdapterError::Parse {
                            line: chars_to_string(&lines[i]),
                            expected: chars_to_string(&pat),
                        },
                    );
                },
                Some(caps) => {
                    let name = get_cap(&caps, 0);
                    if eq_chars(&name, pkg) {
                        return Ok(true);
                    }
                },
            }
        }
        i = i + 1;
    }
    proof {
        assert(all.skip(n as int) =~= Seq::<Seq<char>>::empty());
    }
    Ok(false)
}

/// Reconciles against the profile list (the executable side of
/// `nix_reconcile`).
fn check_nix_installed(package: &str, pkg: &Vec<char>, version: &Vec<char>, installed: &Vec<u8>) -> (r: Result<
    PackageResult,
    AdapterError,
>)
    requires
        pkg@ == package@,
    ensures
        ({
            let o = nix_reconcile(package@, version@, installed@);
            match r {
                Ok(p) => o matches Ok(m) && p@ == m,
                Err(e) => o matches Err(em) && e@ == em,
            }
        }),
{
    let empty: Vec<char> = Vec::new();
    match split_output(installed) {
        RawLines::Empty => Ok(
            mk_result(Manager::Nix, package, Status::Available, version, &empty, &empty),
        ),
        RawLines::Invalid => Err(AdapterError::Decode),
        RawLines::Lines(ls) => match nix_name_scan_exec(pkg, &ls) {
            Err(e) => Err(e),
            Ok(true) => Ok(
                mk_result(Manager::Nix, package, Status::Installed, version, &empty, &empty),
            ),
            Ok(false) => Ok(
                mk_result(Manager::Nix, package, Status::Available, version, &empty, &empty),
            ),
        },
    }
}

/// Queries the Nix-style backend for `package`, given the captured output
/// of its registry-search command and of its profile-list command.
pub fn check_nix(package: &str, search: &Vec<u8>, installed: &Vec<u8>) -> (r: Result<
    PackageResult,
    AdapterError,
>)
    requires
        package@.len() > 0,
    ensures
        ({
            let o = nix_outcome(package@, search@, installed@);
            match r {
                Ok(p) => o matches Ok(m) && p@ == m,
                Err(e) => o matches Err(em) && e@ == em,
            }
        }),
{
    let pkg = str_to_chars(package);
    match split_output(search) {
        RawLines::Empty => Ok(PackageResult::none(Manager::Nix, package)),
        RawLines::Invalid => Err(AdapterError::Decode),
        RawLines::Lines(lines) => match nix_star_scan_exec(&pkg, &lines) {
            Err(e) => Err(e),
            Ok(None) => Ok(PackageResult::none(Manager::Nix, package)),
            Ok(Some(version)) => check_nix_installed(package, &pkg, &version, installed),
        },
    }
}

} // verus!
