//! The health evaluator: applies a required/ignored-service policy to a
//! parsed status snapshot and produces a verdict with itemized failures.

use vstd::prelude::*;
use crate::config::{HealthConfig, PolicyView};
use crate::status::snapshot_model;
pub use crate::status::{parse_services_map, StatusSnapshot};
use crate::text::{has_prefix, has_prefix_from, str_eq};

verus! {

/// The state token that counts as running.
pub open spec fn started_token() -> Seq<char> {
    "started"@
}

/// The sentinel state reported for a required name absent from the snapshot.
pub open spec fn missing_token() -> Seq<char> {
    "missing"@
}

/// The ghost form of one failure: the service's name and the state found.
pub struct FailedServiceView {
    pub name: Seq<char>,
    pub status: Seq<char>,
}

/// A required service that was not running: its name, and either the state
/// the report gave for it or the sentinel `missing` when it was absent.
#[derive(Debug, Clone, PartialEq, Eq)]
pub struct FailedService {
    pub name: String,
    pub status: String,
}

impl View for FailedService {
    type V = FailedServiceView;

    open spec fn view(&self) -> FailedServiceView {
        FailedServiceView { name: self.name@, status: self.status@ }
    }
}

/// The ghost form of a failure list.
pub open spec fn fails_view(v: Seq<FailedService>) -> Seq<FailedServiceView> {
    v.map_values(|f: FailedService| f@)
}

/// A required name is exempt when it equals an `ignore_exact` entry or
/// starts with an `ignore_prefixes` entry.
pub open spec fn spec_ignored(name: Seq<char>, pol: PolicyView) -> bool {
    ||| exists|i: int| 0 <= i < pol.ignore_exact.len() && pol.ignore_exact[i] == name
    ||| exists|i: int|
        0 <= i < pol.ignore_prefixes.len() && has_prefix(name, pol.ignore_prefixes[i])
}

/// The failures among the required names `req`, in order: an exempt name
/// contributes nothing; an absent name fails as `missing`; a present name
/// fails with its reported state unless that state is exactly the running
/// token, compared case-sensitively.
pub open spec fn failures_from(
    req: Seq<Seq<char>>,
    snap: Map<Seq<char>, Seq<char>>,
    pol: PolicyView,
) -> Seq<FailedServiceView>
    decreases req.len(),
{
    if req.len() == 0 {
        Seq::empty()
    } else {
        let head = req[0];
        let rest = failures_from(req.drop_first(), snap, pol);
        if spec_ignored(head, pol) {
            rest
        } else if !snap.contains_key(head) {
            seq![FailedServiceView { name: head, status: missing_token() }] + rest
        } else if snap[head] == started_token() {
            rest
        } else {
            seq![FailedServiceView { name: head, status: snap[head] }] + rest
        }
    }
}

/// The failures that a policy finds in a report text.
pub open spec fn spec_failures(text: Seq<char>, pol: PolicyView) -> Seq<FailedServiceView> {
    failures_from(pol.required, snapshot_model(text), pol)
}

/// Failure collection distributes over splitting the required list.
pub proof fn lemma_failures_concat(
    a: Seq<Seq<char>>,
    b: Seq<Seq<char>>,
    snap: Map<Seq<char>, Seq<char>>,
    pol: PolicyView,
)
    ensures
        failures_from(a + b, snap, pol) == failures_from(a, snap, pol) + failures_from(
            b,
            snap,
            pol,
        ),
    decreases a.len(),
{
    if a.len() == 0 {
        assert(a + b =~= b);
        assert(failures_from(a, snap, pol) + failures_from(b, snap, pol) =~= failures_from(
            b,
            snap,
            pol,
        ));
    } else {
        assert((a + b).drop_first() =~= a.drop_first() + b);
        assert((a + b)[0] == a[0]);
        lemma_failures_concat(a.drop_first(), b, snap, pol);
        assert(failures_from(a + b, snap, pol) =~= failures_from(a, snap, pol) + failures_from(
            b,
            snap,
            pol,
        ));
    }
}

/// Whether a required name is exempt from the health check, by exact match
/// or by prefix.
pub fn is_ignored_service(name: &str, cfg: &HealthConfig) -> (r: bool)
    ensures
        r == spec_ignored(name@, cfg@),
{
    let n = cfg.ignore_exact.len();
    let mut i: usize = 0;
    while i < n
        invariant
            i <= n,
            n == cfg.ignore_exact@.len(),
            forall|p: int| 0 <= p < i ==> cfg@.ignore_exact[p] != name@,
        decreases n - i,
    {
        if str_eq(cfg.ignore_exact[i].as_str(), name) {
            assert(cfg@.ignore_exact[i as int] == name@);
            return true;
        }
        i += 1;
    }
    let m = cfg.ignore_prefixes.len();
    let mut j: usize = 0;
    while j < m
        invariant
            j <= m,
            m == cfg.ignore_prefixes@.len(),
            forall|p: int| 0 <= p < j ==> !has_prefix(name@, cfg@.ignore_prefixes[p]),
        decreases m - j,
    {
        if has_prefix_from(name, 0, cfg.ignore_prefixes[j].as_str()) {
            proof {
                assert(name@.skip(0) =~= name@);
                assert(has_prefix(name@, cfg@.ignore_prefixes[j as int]));
            }
            return true;
        }
        proof {
            assert(name@.skip(0) =~= name@);
        }
        j += 1;
    }
    false
}

/// Collects every required service that is not running: absent names fail
/// as `missing`, present names fail with their literal reported state when
/// it is not exactly the running token. Exempt names are left out entirely,
/// and encounter order follows the required list.
pub fn collect_failed_services(stdout: &str, cfg: &HealthConfig) -> (r: Vec<FailedService>)
    ensures
        fails_view(r@) == spec_failures(stdout@, cfg@),
{
    let snap = parse_services_map(stdout);
    let mut failed: Vec<FailedService> = Vec::new();
    let n = cfg.required_services.len();
    let mut idx: usize = 0;
    proof {
        assert(cfg@.required.take(0) =~= Seq::<Seq<char>>::empty());
        assert(fails_view(failed@) =~= Seq::<FailedServiceView>::empty());
    }
    while idx < n
        invariant
            idx <= n,
            n == cfg.required_services@.len(),
            n == cfg@.required.len(),
            snap@ == snapshot_model(stdout@),
            snap.wf(),
            fails_view(failed@) == failures_from(cfg@.required.take(idx as int), snap@, cfg@),
        decreases n - idx,
    {
        let ghost prefix = cfg@.required.take(idx as int);
        let ghost head = cfg@.required[idx as int];
        let req = &cfg.required_services[idx];
        proof {
            assert(req@ == head);
            assert(cfg@.required.take(idx + 1) =~= prefix + seq![head]);
            lemma_failures_concat(prefix, seq![head], snap@, cfg@);
            assert(seq![head].drop_first() =~= Seq::<Seq<char>>::empty());
            assert(failures_from(Seq::<Seq<char>>::empty(), snap@, cfg@) =~= Seq::<
                FailedServiceView,
            >::empty());
        }
        if !is_ignored_service(req.as_str(), cfg) {
            match snap.get(req.as_str()) {
                Some(st) => {
                    if !str_eq(st.as_str(), "started") {
                        let f = FailedService { name: req.clone(), status: st.clone() };
                        proof {
                            assert(fails_view(failed@.push(f)) =~= fails_view(failed@) + seq![f@]);
                            assert(seq![f@] =~= failures_from(seq![head], snap@, cfg@));
                        }
                        failed.push(f);
                    } else {
                        proof {
                            assert(failures_from(seq![head], snap@, cfg@) =~= Seq::<
                                FailedServiceView,
                            >::empty());
                            assert(fails_view(failed@) + Seq::<FailedServiceView>::empty()
                                =~= fails_view(failed@));
                        }
                    }
                },
                None => {
                    let f = FailedService { name: req.clone(), status: "missing".to_owned() };
                    proof {
                        assert(fails_view(failed@.push(f)) =~= fails_view(failed@) + seq![f@]);
                        assert(seq![f@] =~= failures_from(seq![head], snap@, cfg@));
                    }
                    failed.push(f);
                },
            }
        } else {
            proof {
                assert(failures_from(seq![head], snap@, cfg@) =~= Seq::<
                    FailedServiceView,
                >::empty());
                assert(fails_view(failed@) + Seq::<FailedServiceView>::empty() =~= fails_view(
                    failed@,
                ));
            }
        }
        idx += 1;
    }
    proof {
        assert(cfg@.required.take(n as int) =~= cfg@.required);
    }
    failed
}

/// The verdict of one health evaluation: all required services running, or
/// the list of those that were not. A `Bad` verdict always carries at least
/// one failure; an empty failure list always yields `Good`.
#[derive(Debug, Clone, PartialEq, Eq)]
pub enum HealthDecision {
    Good,
    Bad(Vec<FailedService>),
}

/// Evaluates a status report against a policy. The verdict is `Good`
/// exactly when no non-exempt required service is missing or stopped;
/// otherwise it is `Bad` with every failure, in required-list order. The
/// evaluation is pure: it never fails and depends on its two arguments
/// alone.
pub fn decide_health(stdout: &str, cfg: &HealthConfig) -> (r: HealthDecision)
    ensures
        (r == HealthDecision::Good) <==> spec_failures(stdout@, cfg@).len() == 0,
        r matches HealthDecision::Bad(f) ==> fails_view(f@) == spec_failures(stdout@, cfg@)
            && f@.len() > 0,
{
    let failed = collect_failed_services(stdout, cfg);
    proof {
        assert(fails_view(failed@).len() == failed@.len());
    }
    if failed.is_empty() {
        HealthDecision::Good
    } else {
        HealthDecision::Bad(failed)
    }
}

/// An exempt name never appears in the failure list, whatever state the
/// snapshot reports for it and even when it is absent.
pub proof fn lemma_ignored_never_fails(
    req: Seq<Seq<char>>,
    snap: Map<Seq<char>, Seq<char>>,
    pol: PolicyView,
    i: int,
)
    requires
        0 <= i < failures_from(req, snap, pol).len(),
    ensures
        !spec_ignored(failures_from(req, snap, pol)[i].name, pol),
    decreases req.len(),
{
    if req.len() > 0 {
        let head = req[0];
        let rest = failures_from(req.drop_first(), snap, pol);
        if spec_ignored(head, pol) {
            lemma_ignored_never_fails(req.drop_first(), snap, pol, i);
        } else if !snap.contains_key(head) || snap[head] != started_token() {
            if i > 0 {
                lemma_ignored_never_fails(req.drop_first(), snap, pol, i - 1);
            }
        } else {
            lemma_ignored_never_fails(req.drop_first(), snap, pol, i);
        }
    }
}

/// An empty required list yields no failures, whatever the snapshot holds:
/// an unconfigured policy is permissive by design.
pub proof fn lemma_empty_policy_healthy(
    snap: Map<Seq<char>, Seq<char>>,
    pol: PolicyView,
)
    requires
        pol.required.len() == 0,
    ensures
        failures_from(pol.required, snap, pol).len() == 0,
{
}

} // verus!
