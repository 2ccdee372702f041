//! The AUR-helper adapter.
//!
//! Search output is tabular with two physical lines per record; by this
//! backend's formatting convention the relevant record's header is the
//! second-to-last line, `repo/name version`, and the line after it is the
//! record's continuation, which carries the literal `Installed` marker when
//! the package is installed and otherwise reads as a description. This
//! positional rule is a known sharp edge of the backend's output format and
//! is kept isolated here.

use vstd::prelude::*;
use vstd::utf8::valid_utf8;
use crate::managers::{cap_or_empty, get_cap, mk_result, out_lines};
use crate::model::{not_found_model, AdapterError, ErrorModel, Manager, PackageResult, ResultModel, Status};
use crate::output::{split_output, RawLines};
use crate::scan::{scan_chars, scan_spec};
use crate::text::{
    chars_to_string, contains_exec, contains_seq, eq_chars, join_sp, join_tokens_from,
    reduce_ws, reduce_ws_chars, str_to_chars, tokens_of, views_of, ws_tokens,
};

verus! {

/// The outcome of the AUR-helper adapter: the second-to-last search line is
/// the record header `repo/name version`; a header whose name token is not
/// exactly the query is only a substring match and yields `not found`. The
/// line after the header decides installedness (it contains `Installed`)
/// and doubles as the description.
pub open spec fn yay_outcome(pkg: Seq<char>, search: Seq<u8>) -> Result<ResultModel, ErrorModel> {
    if search.len() == 0 {
        Ok(not_found_model(Manager::Yay, pkg))
    } else if !valid_utf8(search) {
        Err(ErrorModel::Decode)
    } else {
        let lines = out_lines(search);
        if lines.len() < 2 {
            Err(ErrorModel::Parse {
                line: if lines.len() == 0 {
                    Seq::empty()
                } else {
                    lines[0]
                },
                expected: "{}/{} {}"@,
            })
        } else {
            let header = reduce_ws(lines[lines.len() - 2]);
            let trailer = lines[lines.len() - 1];
            match scan_spec(header, "{}/{} {}"@) {
                None => Err(ErrorModel::Parse {
                    line: lines[lines.len() - 2],
                    expected: "{}/{} {}"@,
                }),
                Some(caps) => {
                    if cap_or_empty(caps, 1) != pkg {
                        Ok(not_found_model(Manager::Yay, pkg))
                    } else {
                        Ok(ResultModel {
                            manager: Manager::Yay,
                            package: pkg,
                            version: cap_or_empty(caps, 2),
                            desc: join_sp(ws_tokens(trailer)),
                            repo: cap_or_empty(caps, 0),
                            status: if contains_seq(trailer, "Installed"@) {
                                Status::Installed
                            } else {
                                Status::Available
                            },
                        })
                    }
                },
            }
        }
    }
}

/// Law: on a nonempty package name the AUR-helper adapter yields exactly
/// one well-formed result naming this manager and the queried package,
/// unless it fails with an adapter error.
pub proof fn lemma_yay_outcome_wf(pkg: Seq<char>, search: Seq<u8>)
    requires
        pkg.len() > 0,
    ensures
        yay_outcome(pkg, search) matches Ok(m) ==> m.wf() && m.manager == Manager::Yay
            && m.package == pkg,
{
}

/// Queries the AUR helper for `package`, given the captured output of its
/// search command (the search output itself carries the installed marker,
/// so no second command is involved).
pub fn check_yay(package: &str, search: &Vec<u8>) -> (r: Result<PackageResult, AdapterError>)
    requires
        package@.len() > 0,
    ensures
        ({
            let o = yay_outcome(package@, search@);
            match r {
                Ok(p) => o matches Ok(m) && p@ == m,
                Err(e) => o matches Err(em) && e@ == em,
            }
        }),
{
    match split_output(search) {
        RawLines::Empty => Ok(PackageResult::none(Manager::Yay, package)),
        RawLines::Invalid => Err(AdapterError::Decode),
        RawLines::Lines(lines) => {
            let n = lines.len();
            let hpat = str_to_chars("{}/{} {}");
            if n < 2 {
                let line = if n == 0 {
                    String::new()
                } else {
                    chars_to_string(&lines[0])
                };
                Err(AdapterError::Parse { line, expected: chars_to_string(&hpat) })
            } else {
                let header = reduce_ws_chars(&lines[n - 2]);
                match scan_chars(&header, &hpat) {
                    None => Err(
                        AdapterError::Parse {
                            line: chars_to_string(&lines[n - 2]),
                            expected: chars_to_string(&hpat),
                        },
                    ),
                    Some(caps) => {
                        let name = get_cap(&caps, 1);
                        let pkg = str_to_chars(package);
                        if !eq_chars(&name, &pkg) {
                            Ok(PackageResult::none(Manager::Yay, package))
                        } else {
                            let trailer = &lines[n - 1];
                            let toks = tokens_of(trailer);
                            let desc = join_tokens_from(&toks, 0);
                            proof {
                                assert(views_of(toks@).skip(0) =~= ws_tokens(lines@[n - 1]@));
                            }
                            let needle = str_to_chars("Installed");
                            let st = if contains_exec(trailer, &needle) {
                                Status::Installed
                            } else {
                                Status::Available
                            };
                            let version = get_cap(&caps, 2);
                            let repo = get_cap(&caps, 0);
                            Ok(mk_result(Manager::Yay, package, st, &version, &desc, &repo))
                        }
                    },
                }
            }
        },
    }
}

} // verus!
