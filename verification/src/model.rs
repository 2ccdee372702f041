//! The shared result model: the manager enumeration, the three-valued
//! status, the normalized per-manager query result, the adapter error
//! taxonomy, and version-delta formatting.

use vstd::prelude::*;
use vstd::string::*;
use crate::text::{str_to_chars, chars_to_string, eq_chars, extend_chars, subvec};

verus! {

/// The backends this crate can query.
#[derive(Clone, Copy, PartialEq, Eq, Debug, Structural)]
pub enum Manager {
    /// System package manager (key/value search output, `name/suite` install list).
    Apt,
    /// AUR helper (tabular search output, two physical lines per record).
    Yay,
    /// Language registry, crate style (`name = "version" # description`).
    Cargo,
    /// Language registry, module style (same grammar, module-path names).
    Go,
    /// Universal package format (five-column search output).
    Snap,
    /// Nix-style store (`* attr.path (version)` search output).
    Nix,
}

/// Whether the queried package is installed, merely available, or unknown.
#[derive(Clone, Copy, PartialEq, Eq, Debug, Structural)]
pub enum Status {
    Installed,
    Available,
    NotFound,
}

/// The mathematical model of a query result: the same fields as
/// `PackageResult`, with strings as character sequences.
pub struct ResultModel {
    pub manager: Manager,
    pub package: Seq<char>,
    pub version: Seq<char>,
    pub desc: Seq<char>,
    pub repo: Seq<char>,
    pub status: Status,
}

impl ResultModel {
    /// Model invariant: the package name is never empty, and a result that
    /// found nothing carries no version, description or origin.
    pub open spec fn wf(self) -> bool {
        &&& self.package.len() > 0
        &&& self.status is NotFound ==> {
            &&& self.version.len() == 0
            &&& self.desc.len() == 0
            &&& self.repo.len() == 0
        }
    }
}

/// The result of one package query against one manager.
#[derive(Debug)]
pub struct PackageResult {
    /// Which backend produced this result.
    pub manager: Manager,
    /// The package name as resolved by the backend (the query string when
    /// nothing was found).
    pub package: String,
    /// Free-form version; `"<installed> -> <latest>"` when the two differ.
    pub version: String,
    /// Free-form description, empty when unavailable.
    pub desc: String,
    /// Backend-specific origin: repository for the AUR helper, module path
    /// for the module-style registry, empty otherwise.
    pub repo: String,
    /// Installed, available, or not found.
    pub status: Status,
}

impl View for PackageResult {
    type V = ResultModel;

    open spec fn view(&self) -> ResultModel {
        ResultModel {
            manager: self.manager,
            package: self.package@,
            version: self.version@,
            desc: self.desc@,
            repo: self.repo@,
            status: self.status,
        }
    }
}

impl DeepView for PackageResult {
    type V = ResultModel;

    open spec fn deep_view(&self) -> ResultModel {
        self.view()
    }
}

impl PackageResult {
    /// A result with explicit fields.
    pub fn some(manager: Manager, package: &str, status: Status, version: &str, desc: &str, repo: &str) -> (r: Self)
        ensures
            r@ == (ResultModel {
                manager,
                package: package@,
                version: version@,
                desc: desc@,
                repo: repo@,
                status,
            }),
    {
        PackageResult {
            manager,
            package: String::from_str(package),
            version: String::from_str(version),
            desc: String::from_str(desc),
            repo: String::from_str(repo),
            status,
        }
    }

    /// The `not found` result for a query: the package field falls back to
    /// the query string, everything else is empty.
    pub fn none(manager: Manager, package: &str) -> (r: Self)
        ensures
            r@ == not_found_model(manager, package@),
    {
        PackageResult {
            manager,
            package: String::from_str(package),
            version: String::new(),
            desc: String::new(),
            repo: String::new(),
            status: Status::NotFound,
        }
    }
}

/// The model of a `not found` result for the given query.
pub open spec fn not_found_model(manager: Manager, package: Seq<char>) -> ResultModel {
    ResultModel {
        manager,
        package,
        version: Seq::empty(),
        desc: Seq::empty(),
        repo: Seq::empty(),
        status: Status::NotFound,
    }
}

/// The model of an adapter error.
pub enum ErrorModel {
    /// Command output was not valid text.
    Decode,
    /// A line expected to match a manager's grammar did not: the offending
    /// line and the expected pattern.
    Parse { line: Seq<char>, expected: Seq<char> },
}

/// A manager-scoped adapter failure: the output could not be decoded, or a
/// line expected to match the manager's grammar did not.
#[derive(Debug)]
pub enum AdapterError {
    /// Command output was not valid UTF-8 text.
    Decode,
    /// A grammar mismatch, carrying the offending line and the expected
    /// pattern.
    Parse { line: String, expected: String },
}

impl View for AdapterError {
    type V = ErrorModel;

    open spec fn view(&self) -> ErrorModel {
        match self {
            AdapterError::Decode => ErrorModel::Decode,
            AdapterError::Parse { line, expected } => ErrorModel::Parse {
                line: line@,
                expected: expected@,
            },
        }
    }
}

/// The rendering of an adapter error as one line of text.
pub open spec fn error_message_of(e: ErrorModel) -> Seq<char> {
    match e {
        ErrorModel::Decode => "output was not valid text"@,
        ErrorModel::Parse { line, expected } => "line `"@ + line + "` did not match `"@ + expected
            + "`"@,
    }
}

impl AdapterError {
    /// One line of text describing this error.
    pub fn message(&self) -> (r: String)
        ensures
            r@ == error_message_of(self@),
    {
        match self {
            AdapterError::Decode => String::from_str("output was not valid text"),
            AdapterError::Parse { line, expected } => {
                let mut r = String::from_str("line `");
                r.append(line.as_str());
                r.append("` did not match `");
                r.append(expected.as_str());
                r.append("`");
                r
            },
        }
    }
}

/// The displayed version for an installed package: the installed version
/// when registry and installed versions agree, otherwise
/// `<installed> -> <latest>`.
pub open spec fn version_delta(installed: Seq<char>, latest: Seq<char>) -> Seq<char> {
    if installed == latest {
        installed
    } else {
        installed + " -> "@ + latest
    }
}

/// `version_delta` on character vectors.
pub fn delta_chars(installed: &Vec<char>, latest: &Vec<char>) -> (r: Vec<char>)
    ensures
        r@ == version_delta(installed@, latest@),
{
    if eq_chars(installed, latest) {
        let r = subvec(installed, 0, installed.len());
        proof {
            assert(installed@.subrange(0, installed@.len() as int) =~= installed@);
        }
        r
    } else {
        let mut r = subvec(installed, 0, installed.len());
        proof {
            assert(installed@.subrange(0, installed@.len() as int) =~= installed@);
        }
        let arrow = str_to_chars(" -> ");
        extend_chars(&mut r, &arrow);
        extend_chars(&mut r, latest);
        r
    }
}

/// Formats the version of an installed package from the installed and the
/// latest registry version: equal versions collapse to one, different ones
/// are rendered `<installed> -> <latest>`.
pub fn format_version_delta(installed: &str, latest: &str) -> (r: String)
    ensures
        r@ == version_delta(installed@, latest@),
{
    let a = str_to_chars(installed);
    let b = str_to_chars(latest);
    let d = delta_chars(&a, &b);
    chars_to_string(&d)
}

} // verus!
