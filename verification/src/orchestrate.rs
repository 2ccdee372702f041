//! The orchestrator: dispatches one query to each detected manager's
//! adapter, collects the results, and tolerates individual adapter failure
//! without aborting the batch.

use vstd::prelude::*;
use crate::managers::apt::{apt_outcome, check_apt, lemma_apt_outcome_wf};
use crate::managers::cargo::{cargo_outcome, check_cargo, lemma_cargo_outcome_wf};
use crate::managers::go::{check_go, go_outcome, lemma_go_outcome_wf};
use crate::managers::nix::{check_nix, lemma_nix_outcome_wf, nix_outcome};
use crate::managers::snap::{check_snap, lemma_snap_outcome_wf, snap_outcome};
use crate::managers::yay::{check_yay, lemma_yay_outcome_wf, yay_outcome};
use crate::model::{AdapterError, ErrorModel, Manager, PackageResult, ResultModel, Status};

verus! {

/// The model of one manager's captured command output.
pub struct QueryModel {
    pub manager: Manager,
    pub search: Seq<u8>,
    pub installed: Seq<u8>,
}

/// One manager's captured command output: the bytes its registry-search
/// command and its installed-list command wrote to standard output. A
/// manager whose installedness signal lives in its search output ignores
/// the `installed` field.
pub struct ManagerQuery {
    pub manager: Manager,
    pub search: Vec<u8>,
    pub installed: Vec<u8>,
}

impl View for ManagerQuery {
    type V = QueryModel;

    open spec fn view(&self) -> QueryModel {
        QueryModel { manager: self.manager, search: self.search@, installed: self.installed@ }
    }
}

impl DeepView for ManagerQuery {
    type V = QueryModel;

    open spec fn deep_view(&self) -> QueryModel {
        self.view()
    }
}

/// The model of one manager-scoped failure.
pub struct FailureModel {
    pub manager: Manager,
    pub error: ErrorModel,
}

/// A manager-scoped adapter failure, reported alongside the successful
/// results without aborting them.
#[derive(Debug)]
pub struct ManagerFailure {
    pub manager: Manager,
    pub error: AdapterError,
}

impl View for ManagerFailure {
    type V = FailureModel;

    open spec fn view(&self) -> FailureModel {
        FailureModel { manager: self.manager, error: self.error@ }
    }
}

impl DeepView for ManagerFailure {
    type V = FailureModel;

    open spec fn deep_view(&self) -> FailureModel {
        self.view()
    }
}

/// The outcome of the manager's adapter on its captured output.
pub open spec fn outcome_of(pkg: Seq<char>, q: QueryModel) -> Result<ResultModel, ErrorModel> {
    match q.manager {
        Manager::Apt => apt_outcome(pkg, q.search, q.installed),
        Manager::Yay => yay_outcome(pkg, q.search),
        Manager::Cargo => cargo_outcome(pkg, q.search, q.installed),
        Manager::Go => go_outcome(pkg, q.search, q.installed),
        Manager::Snap => snap_outcome(pkg, q.search, q.installed),
        Manager::Nix => nix_outcome(pkg, q.search, q.installed),
    }
}

/// Law: every adapter, on a nonempty package name, yields exactly one
/// well-formed result that names its own manager and the queried package —
/// or fails with a manager-scoped error, never both and never neither.
pub proof fn lemma_outcome_wf(pkg: Seq<char>, q: QueryModel)
    requires
        pkg.len() > 0,
    ensures
        outcome_of(pkg, q) matches Ok(m) ==> m.wf() && m.manager == q.manager && m.package == pkg,
{
    match q.manager {
        Manager::Apt => lemma_apt_outcome_wf(pkg, q.search, q.installed),
        Manager::Yay => lemma_yay_outcome_wf(pkg, q.search),
        Manager::Cargo => lemma_cargo_outcome_wf(pkg, q.search, q.installed),
        Manager::Go => lemma_go_outcome_wf(pkg, q.search, q.installed),
        Manager::Snap => lemma_snap_outcome_wf(pkg, q.search, q.installed),
        Manager::Nix => lemma_nix_outcome_wf(pkg, q.search, q.installed),
    }
}

/// Law: every adapter is a pure function of the package name and the
/// captured command output, so two invocations in succession with
/// unchanged host state — equal captured outputs — yield results equal in
/// every field, in particular in status, version and origin.
pub proof fn lemma_adapter_idempotent(
    pkg: Seq<char>,
    q: QueryModel,
    r1: ResultModel,
    r2: ResultModel,
)
    requires
        outcome_of(pkg, q) == Ok::<ResultModel, ErrorModel>(r1),
        outcome_of(pkg, q) == Ok::<ResultModel, ErrorModel>(r2),
    ensures
        r1.status == r2.status,
        r1.version == r2.version,
        r1.repo == r2.repo,
        r1 == r2,
{
}

/// The successful results of the batch, in query order.
pub open spec fn run_all_results(pkg: Seq<char>, qs: Seq<QueryModel>) -> Seq<ResultModel>
    decreases qs.len(),
{
    if qs.len() == 0 {
        Seq::empty()
    } else {
        let rest = run_all_results(pkg, qs.drop_first());
        match outcome_of(pkg, qs[0]) {
            Ok(m) => seq![m] + rest,
            Err(_) => rest,
        }
    }
}

/// The manager-scoped failures of the batch, in query order.
pub open spec fn run_all_failures(pkg: Seq<char>, qs: Seq<QueryModel>) -> Seq<FailureModel>
    decreases qs.len(),
{
    if qs.len() == 0 {
        Seq::empty()
    } else {
        let rest = run_all_failures(pkg, qs.drop_first());
        match outcome_of(pkg, qs[0]) {
            Ok(_) => rest,
            Err(e) => seq![FailureModel { manager: qs[0].manager, error: e }] + rest,
        }
    }
}

/// Law: each query contributes exactly one entry to the batch — a result
/// or a failure, never both and never neither.
pub proof fn lemma_run_all_complete(pkg: Seq<char>, qs: Seq<QueryModel>)
    ensures
        run_all_results(pkg, qs).len() + run_all_failures(pkg, qs).len() == qs.len(),
    decreases qs.len(),
{
    if qs.len() > 0 {
        lemma_run_all_complete(pkg, qs.drop_first());
    }
}

/// Runs one manager's adapter on its captured output.
pub fn check_manager(m: Manager, package: &str, search: &Vec<u8>, installed: &Vec<u8>) -> (r:
    Result<PackageResult, AdapterError>)
    requires
        package@.len() > 0,
    ensures
        ({
            let o = outcome_of(
                package@,
                QueryModel { manager: m, search: search@, installed: installed@ },
            );
            match r {
                Ok(p) => o matches Ok(mm) && p@ == mm,
                Err(e) => o matches Err(em) && e@ == em,
            }
        }),
{
    match m {
        Manager::Apt => check_apt(package, search, installed),
        Manager::Yay => check_yay(package, search),
        Manager::Cargo => check_cargo(package, search, installed),
        Manager::Go => check_go(package, search, installed),
        Manager::Snap => check_snap(package, search, installed),
        Manager::Nix => check_nix(package, search, installed),
    }
}

/// Runs the adapters for all detected managers, in order: each query
/// yields either a collected result or a recorded manager-scoped failure,
/// and a failure never aborts the remaining managers. An empty batch is
/// valid and yields empty output.
pub fn run_all(package: &str, queries: Vec<ManagerQuery>) -> (r: (
    Vec<PackageResult>,
    Vec<ManagerFailure>,
))
    requires
        package@.len() > 0,
    ensures
        r.0.deep_view() == run_all_results(package@, queries.deep_view()),
        r.1.deep_view() == run_all_failures(package@, queries.deep_view()),
{
    let ghost allq = queries.deep_view();
    let mut rest = queries;
    let mut results: Vec<PackageResult> = Vec::new();
    let mut failures: Vec<ManagerFailure> = Vec::new();
    proof {
        assert(results.deep_view() + run_all_results(package@, allq) =~= run_all_results(
            package@,
            allq,
        ));
        assert(failures.deep_view() + run_all_failures(package@, allq) =~= run_all_failures(
            package@,
            allq,
        ));
    }
    while rest.len() > 0
        invariant
            package@.len() > 0,
            run_all_results(package@, allq) == results.deep_view() + run_all_results(
                package@,
                rest.deep_view(),
            ),
            run_all_failures(package@, allq) == failures.deep_view() + run_all_failures(
                package@,
                rest.deep_view(),
            ),
        decreases rest.len(),
    {
        let ghost rest0 = rest.deep_view();
        let q = rest.remove(0);
        proof {
            assert(rest.deep_view() =~= rest0.drop_first());
            assert(rest0[0] == q@);
        }
        match check_manager(q.manager, package, &q.search, &q.installed) {
            Ok(p) => {
                let ghost done = results.deep_view();
                let ghost pm = p@;
                results.push(p);
                proof {
                    assert(results.deep_view() =~= done.push(pm));
                    assert(done + (seq![pm] + run_all_results(package@, rest.deep_view()))
                        =~= done.push(pm) + run_all_results(package@, rest.deep_view()));
                }
            },
            Err(e) => {
                let ghost done = failures.deep_view();
                let f = ManagerFailure { manager: q.manager, error: e };
                let ghost fm = f@;
                failures.push(f);
                proof {
                    assert(failures.deep_view() =~= done.push(fm));
                    assert(done + (seq![fm] + run_all_failures(package@, rest.deep_view()))
                        =~= done.push(fm) + run_all_failures(package@, rest.deep_view()));
                }
            },
        }
    }
    proof {
        assert(rest.deep_view() =~= Seq::<QueryModel>::empty());
        assert(results.deep_view() + run_all_results(package@, rest.deep_view())
            =~= results.deep_view());
        assert(failures.deep_view() + run_all_failures(package@, rest.deep_view())
            =~= failures.deep_view());
    }
    (results, failures)
}

/// Whether every collected result reports `not found` — the distinguished
/// batch outcome that warrants a failing process exit.
pub fn all_not_found(results: &Vec<PackageResult>) -> (b: bool)
    ensures
        b == forall|i: int|
            0 <= i < results@.len() ==> (#[trigger] results@[i])@.status is NotFound,
{
    let n = results.len();
    let mut i: usize = 0;
    while i < n
        invariant
            i <= n,
            n == results@.len(),
            forall|j: int| 0 <= j < i ==> (#[trigger] results@[j])@.status is NotFound,
        decreases n - i,
    {
        match results[i].status {
            Status::NotFound => {},
            _ => {
                return false;
            },
        }
        i = i + 1;
    }
    true
}

} // verus!
