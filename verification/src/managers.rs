//! The per-manager adapters and the line-scanning machinery they share.
//!
//! Every adapter is a pure function of the package name and the captured
//! output of its manager's commands: it classifies the raw bytes, filters
//! candidate lines with an exact-match rule, extracts fields with the
//! manager's grammar, and reconciles registry and installed-list signals
//! into one `PackageResult`.

use vstd::prelude::*;
use vstd::string::*;
use vstd::utf8::decode_utf8;
use crate::model::{AdapterError, ErrorModel, Manager, PackageResult, ResultModel, Status};
use crate::scan::{scan_chars, scan_spec};
use crate::text::{
    begins_with, chars_to_string, eq_chars, extend_chars, has_prefix, nl_lines, reduce_ws,
    reduce_ws_chars, str_to_chars, subvec, views_of,
};

pub mod apt;
pub mod cargo;
pub mod go;
pub mod nix;
pub mod snap;
pub mod yay;

verus! {

/// The nonempty lines of a command's decoded output.
pub open spec fn out_lines(bytes: Seq<u8>) -> Seq<Seq<char>> {
    nl_lines(decode_utf8(bytes))
}

/// Some line of `lines` is exactly `target`.
pub open spec fn line_exists(lines: Seq<Seq<char>>, target: Seq<char>) -> bool {
    exists|i: int| 0 <= i < lines.len() && lines[i] == target
}

/// Decides `line_exists`.
pub fn line_exists_exec(lines: &Vec<Vec<char>>, target: &Vec<char>) -> (b: bool)
    ensures
        b == line_exists(views_of(lines@), target@),
{
    let n = lines.len();
    let mut i: usize = 0;
    while i < n
        invariant
            i <= n,
            n == lines@.len(),
            forall|j: int| 0 <= j < i ==> views_of(lines@)[j] != target@,
        decreases n - i,
    {
        if eq_chars(&lines[i], target) {
            proof {
                assert(views_of(lines@)[i as int] == target@);
            }
            return true;
        }
        i = i + 1;
    }
    false
}

/// The captures of the first line that scans successfully against
/// `pattern`, if any.
pub open spec fn scan_first(lines: Seq<Seq<char>>, pattern: Seq<char>) -> Option<Seq<Seq<char>>>
    decreases lines.len(),
{
    if lines.len() == 0 {
        None
    } else {
        match scan_spec(lines[0], pattern) {
            Some(caps) => Some(caps),
            None => scan_first(lines.drop_first(), pattern),
        }
    }
}

/// Finds the first line scanning successfully against `pattern` and returns
/// its captures.
pub fn scan_first_exec(lines: &Vec<Vec<char>>, pattern: &Vec<char>) -> (r: Option<Vec<Vec<char>>>)
    ensures
        match scan_first(views_of(lines@), pattern@) {
            Some(caps) => r matches Some(v) && views_of(v@) == caps,
            None => r is None,
        },
{
    let ghost all = views_of(lines@);
    let n = lines.len();
    let mut i: usize = 0;
    proof {
        assert(all.skip(0) =~= all);
    }
    while i < n
        invariant
            i <= n,
            n == lines@.len(),
            all == views_of(lines@),
            pattern@ == pattern@,
            scan_first(all, pattern@) == scan_first(all.skip(i as int), pattern@),
        decreases n - i,
    {
        let ghost rem = all.skip(i as int);
        proof {
            assert(rem[0] == all[i as int]);
            assert(rem.drop_first() =~= all.skip(i + 1));
        }
        match scan_chars(&lines[i], pattern) {
            Some(v) => {
                proof {
                    assert(scan_first(rem, pattern@) == scan_spec(all[i as int], pattern@));
                }
                return Some(v);
            },
            None => {},
        }
        i = i + 1;
    }
    proof {
        assert(all.skip(n as int) =~= Seq::<Seq<char>>::empty());
    }
    None
}

/// Scans candidate lines selected by prefix: the first line whose
/// whitespace-reduced form begins with `prefix` must scan against `pattern`;
/// its captures are returned. A candidate that does not scan is a grammar
/// mismatch. No candidate at all is not an error.
pub open spec fn first_prefixed_scan(
    lines: Seq<Seq<char>>,
    prefix: Seq<char>,
    pattern: Seq<char>,
) -> Result<Option<Seq<Seq<char>>>, ErrorModel>
    decreases lines.len(),
{
    if lines.len() == 0 {
        Ok(None)
    } else {
        let red = reduce_ws(lines[0]);
        if begins_with(red, prefix) {
            match scan_spec(red, pattern) {
                Some(caps) => Ok(Some(caps)),
                None => Err(ErrorModel::Parse { line: lines[0], expected: pattern }),
            }
        } else {
            first_prefixed_scan(lines.drop_first(), prefix, pattern)
        }
    }
}

/// Finds the first candidate line (reduced form beginning with `prefix`)
/// and scans it against `pattern`.
pub fn first_prefixed_scan_exec(
    lines: &Vec<Vec<char>>,
    prefix: &Vec<char>,
    pattern: &Vec<char>,
) -> (r: Result<Option<Vec<Vec<char>>>, AdapterError>)
    ensures
        match first_prefixed_scan(views_of(lines@), prefix@, pattern@) {
            Ok(None) => r matches Ok(o) && o is None,
            Ok(Some(caps)) => r matches Ok(o) && o matches Some(v) && views_of(v@) == caps,
            Err(em) => r matches Err(e) && e@ == em,
        },
{
    let ghost all = views_of(lines@);
    let n = lines.len();
    let mut i: usize = 0;
    proof {
        assert(all.skip(0) =~= all);
    }
    while i < n
        invariant
            i <= n,
            n == lines@.len(),
            all == views_of(lines@),
            first_prefixed_scan(all, prefix@, pattern@) == first_prefixed_scan(
                all.skip(i as int),
                prefix@,
                pattern@,
            ),
        decreases n - i,
    {
        let ghost rem = all.skip(i as int);
        proof {
            assert(rem[0] == all[i as int]);
            assert(rem.drop_first() =~= all.skip(i + 1));
        }
        let red = reduce_ws_chars(&lines[i]);
        if has_prefix(&red, prefix) {
            match scan_chars(&red, pattern) {
                Some(v) => {
                    return Ok(Some(v));
                },
                None => {
                    let line = chars_to_string(&lines[i]);
                    let expected = chars_to_string(pattern);
                    return Err(AdapterError::Parse { line, expected });
                },
            }
        }
        i = i + 1;
    }
    proof {
        assert(all.skip(n as int) =~= Seq::<Seq<char>>::empty());
    }
    Ok(None)
}

/// Capture `i` of a scan, or the empty sequence when there is no such
/// capture.
pub open spec fn cap_or_empty(caps: Seq<Seq<char>>, i: int) -> Seq<char> {
    if 0 <= i < caps.len() {
        caps[i]
    } else {
        Seq::empty()
    }
}

/// Fetches capture `i` of a scan, the empty vector when out of range.
pub fn get_cap(caps: &Vec<Vec<char>>, i: usize) -> (r: Vec<char>)
    ensures
        r@ == cap_or_empty(views_of(caps@), i as int),
{
    if i < caps.len() {
        let r = subvec(&caps[i], 0, caps[i].len());
        proof {
            assert(caps@[i as int]@.subrange(0, caps@[i as int]@.len() as int) =~= caps@[
                i as int
            ]@);
        }
        r
    } else {
        Vec::new()
    }
}

/// A `PackageResult` with the given fields.
pub fn mk_result(
    m: Manager,
    package: &str,
    status: Status,
    version: &Vec<char>,
    desc: &Vec<char>,
    repo: &Vec<char>,
) -> (r: PackageResult)
    ensures
        r@ == (ResultModel {
            manager: m,
            package: package@,
            version: version@,
            desc: desc@,
            repo: repo@,
            status,
        }),
{
    PackageResult {
        manager: m,
        package: String::from_str(package),
        version: chars_to_string(version),
        desc: chars_to_string(desc),
        repo: chars_to_string(repo),
        status,
    }
}

/// The characters `prefix + pkg + suffix`, for building package-specific
/// grammar patterns.
pub fn around_pkg(prefix: &str, pkg: &Vec<char>, suffix: &str) -> (r: Vec<char>)
    ensures
        r@ == prefix@ + pkg@ + suffix@,
{
    let mut r = str_to_chars(prefix);
    extend_chars(&mut r, pkg);
    let suf = str_to_chars(suffix);
    extend_chars(&mut r, &suf);
    r
}

} // verus!
