//! The polling controller: fetches a fresh status report through injected
//! collaborators, evaluates it, and either confirms the slot, retries after
//! a sleep, or rolls the slot back once the deadline has passed.

use vstd::prelude::*;
use crate::config::{HealthConfig, PolicyView};
use crate::openrc::{decide_health, fails_view, spec_failures, FailedService, HealthDecision};

verus! {

/// Options of the check-and-mark operation: an optional policy-file path
/// (read by the caller, not by the library), the total time budget, and the
/// pause between two health checks.
#[derive(Debug, Clone)]
pub struct CheckOpenrcArgs {
    pub config: Option<String>,
    pub timeout_secunds: u64,
    pub poll_interval_ms: u64,
}

/// A clock value advanced by `ms` milliseconds, clamped to the largest
/// representable instant.
pub open spec fn advance(c: int, ms: int) -> int {
    if c + ms <= u64::MAX as int {
        c + ms
    } else {
        u64::MAX as int
    }
}

/// A duration in seconds turned into milliseconds, clamped at the largest
/// representable duration.
pub open spec fn ms_of_secs(s: int) -> int {
    if s * 1000 <= u64::MAX as int {
        s * 1000
    } else {
        u64::MAX as int
    }
}

/// The collaborators the polling controller is driven by: a status source,
/// a millisecond clock, a sleeper, and the two slot-marking actions. Beyond
/// their signatures only two facts are assumed, both true of a monotonic
/// clock and an honest sleeper: the clock never runs backwards, and a sleep
/// advances it by at least the requested amount (clamped at the largest
/// representable instant). Implementors outside the library supply real
/// subprocesses and real time; tests supply deterministic stand-ins.
pub trait OpenRcDeps: Sized {
    /// The collaborator's clock, in milliseconds, as ghost state. An
    /// implementor that leaves it at the placeholder default cannot satisfy
    /// the clock clauses below; a verified implementor overrides it.
    open spec fn clock(&self) -> int {
        0
    }

    /// Produces the verbatim status-report text, or a fatal fetch error.
    fn run_rc_status(&mut self) -> (r: Result<String, String>)
        ensures
            old(self).clock() <= final(self).clock(),
    ;

    /// Reads the clock.
    fn now_ms(&mut self) -> (t: u64)
        ensures
            old(self).clock() <= final(self).clock(),
            t as int == final(self).clock(),
    ;

    /// Pauses for at least `ms` milliseconds.
    fn sleep_ms(&mut self, ms: u64)
        ensures
            final(self).clock() >= advance(old(self).clock(), ms as int),
    ;

    /// Marks the booted slot good.
    fn mark_good(&mut self) -> (r: Result<(), String>)
        ensures
            old(self).clock() <= final(self).clock(),
    ;

    /// Marks the booted slot bad.
    fn mark_bad(&mut self) -> (r: Result<(), String>)
        ensures
            old(self).clock() <= final(self).clock(),
    ;
}

/// The terminal result of a polling session: the slot was confirmed, or it
/// was rolled back with the final failure list and the elapsed time in
/// milliseconds.
#[derive(Debug, Clone, PartialEq, Eq)]
pub enum PollOutcome {
    Confirmed,
    RolledBack(Vec<FailedService>, u64),
}

/// A fatal error of the polling session: the status source failed, or a
/// slot-marking action failed. Neither is retried.
#[derive(Debug, Clone, PartialEq, Eq)]
pub enum PollError {
    StatusFetch(String),
    Action(String),
}

/// A status text that the policy evaluates as healthy.
pub open spec fn text_healthy(text: Seq<char>, pol: PolicyView) -> bool {
    spec_failures(text, pol).len() == 0
}

/// What one polling session observed: the deadline it computed, every
/// status text it fetched, the clock values it sampled after each unhealthy
/// verdict, and how often it slept, confirmed and rolled back.
pub struct PollTrace {
    pub start: int,
    pub deadline: int,
    pub texts: Seq<Seq<char>>,
    pub times: Seq<int>,
    pub sleeps: int,
    pub confirms: int,
    pub rollbacks: int,
}

/// How a polling session's result relates to its trace. Whatever the
/// collaborators returned: the deadline was fixed once, at entry, as the
/// start instant plus the timeout; every sleep followed an unhealthy
/// verdict observed strictly before the deadline; confirmation follows a
/// healthy verdict on the last fetched text without a further sleep;
/// rollback follows an unhealthy verdict at or past the deadline, carries
/// exactly that verdict's failures, and reports the elapsed time; each
/// slot-marking action is invoked at most once, on the last verdict alone.
pub open spec fn poll_post(
    pol: PolicyView,
    timeout_ms: int,
    r: Result<PollOutcome, PollError>,
    tr: PollTrace,
) -> bool {
    let n = tr.texts.len() as int;
    &&& 0 <= tr.start <= u64::MAX as int
    &&& tr.deadline == advance(tr.start, timeout_ms)
    &&& tr.sleeps >= 0
    &&& forall|i: int| 0 <= i < tr.times.len() ==> tr.start <= #[trigger] tr.times[i] <= u64::MAX as int
    &&& forall|i: int, j: int|
        0 <= i <= j < tr.times.len() ==> #[trigger] tr.times[i] <= #[trigger] tr.times[j]
    &&& forall|i: int|
        0 <= i < tr.sleeps ==> !text_healthy(#[trigger] tr.texts[i], pol) && tr.times[i]
            < tr.deadline
    &&& match r {
        Result::Ok(outcome) => match outcome {
            PollOutcome::Confirmed => {
                &&& n == tr.sleeps + 1
                &&& tr.times.len() == tr.sleeps
                &&& text_healthy(tr.texts[n - 1], pol)
                &&& tr.confirms == 1
                &&& tr.rollbacks == 0
            },
            PollOutcome::RolledBack(f, elapsed) => {
                &&& n == tr.sleeps + 1
                &&& tr.times.len() == n
                &&& !text_healthy(tr.texts[n - 1], pol)
                &&& fails_view(f@) == spec_failures(tr.texts[n - 1], pol)
                &&& f@.len() > 0
                &&& tr.times[n - 1] >= tr.deadline
                &&& tr.confirms == 0
                &&& tr.rollbacks == 1
                &&& elapsed as int == if tr.times[n - 1] >= tr.start {
                    tr.times[n - 1] - tr.start
                } else {
                    0
                }
            },
        },
        Result::Err(err) => match err {
            PollError::StatusFetch(_) => {
                &&& n == tr.sleeps
                &&& tr.times.len() == n
                &&& tr.confirms == 0
                &&& tr.rollbacks == 0
            },
            PollError::Action(_) => {
                ||| {
                    &&& n == tr.sleeps + 1
                    &&& tr.times.len() == tr.sleeps
                    &&& text_healthy(tr.texts[n - 1], pol)
                    &&& tr.confirms == 1
                    &&& tr.rollbacks == 0
                }
                ||| {
                    &&& n == tr.sleeps + 1
                    &&& tr.times.len() == n
                    &&& !text_healthy(tr.texts[n - 1], pol)
                    &&& tr.times[n - 1] >= tr.deadline
                    &&& tr.confirms == 0
                    &&& tr.rollbacks == 1
                }
            },
        },
    }
}

/// Polls the status source until the policy is satisfied or the deadline
/// passes. The deadline is the first clock reading plus `timeout_ms`, fixed
/// once; an unhealthy verdict before it sleeps `poll_interval_ms` and
/// retries, an unhealthy verdict at or past it rolls the slot back; a
/// healthy verdict confirms the slot at once. A fetch error or a marking
/// error is fatal immediately. The ghost trace witnesses how the outcome
/// followed from what the collaborators returned.
pub fn poll_until_healthy<D: OpenRcDeps>(
    cfg: &HealthConfig,
    timeout_ms: u64,
    poll_interval_ms: u64,
    deps: &mut D,
) -> (r: (Result<PollOutcome, PollError>, Ghost<PollTrace>))
    requires
        poll_interval_ms >= 1,
    ensures
        poll_post(cfg@, timeout_ms as int, r.0, r.1@),
{
    let start = deps.now_ms();
    let deadline = if start <= u64::MAX - timeout_ms {
        start + timeout_ms
    } else {
        u64::MAX
    };
    let ghost mut texts_g: Seq<Seq<char>> = Seq::empty();
    let ghost mut times_g: Seq<int> = Seq::empty();
    let ghost mut sleeps_g: int = 0;
    loop
        invariant
            poll_interval_ms >= 1,
            deadline as int == advance(start as int, timeout_ms as int),
            sleeps_g == texts_g.len(),
            times_g.len() == texts_g.len(),
            forall|i: int|
                0 <= i < texts_g.len() ==> !text_healthy(#[trigger] texts_g[i], cfg@)
                    && times_g[i] < deadline as int,
            forall|i: int|
                0 <= i < times_g.len() ==> start as int <= #[trigger] times_g[i] <= u64::MAX as int,
            forall|i: int, j: int|
                0 <= i <= j < times_g.len() ==> #[trigger] times_g[i] <= #[trigger] times_g[j],
            if times_g.len() == 0 {
                deps.clock() == start as int
            } else {
                deps.clock() >= advance(times_g.last(), poll_interval_ms as int)
            },
        decreases (if deps.clock() <= deadline as int {
            deadline as int - deps.clock()
        } else {
            0
        }),
    {
        let fetched = deps.run_rc_status();
        let text = match fetched {
            Ok(t) => t,
            Err(e) => {
                let ghost tr = PollTrace {
                    start: start as int,
                    deadline: deadline as int,
                    texts: texts_g,
                    times: times_g,
                    sleeps: sleeps_g,
                    confirms: 0,
                    rollbacks: 0,
                };
                return (Err(PollError::StatusFetch(e)), Ghost(tr));
            },
        };
        match decide_health(text.as_str(), cfg) {
            HealthDecision::Good => {
                let ghost tr = PollTrace {
                    start: start as int,
                    deadline: deadline as int,
                    texts: texts_g.push(text@),
                    times: times_g,
                    sleeps: sleeps_g,
                    confirms: 1,
                    rollbacks: 0,
                };
                proof {
                    assert forall|i: int|
                        0 <= i < tr.sleeps implies !text_healthy(
                        #[trigger] tr.texts[i],
                        cfg@,
                    ) && tr.times[i] < tr.deadline by {
                        assert(tr.texts[i] == texts_g[i]);
                        assert(!text_healthy(texts_g[i], cfg@) && times_g[i] < deadline as int);
                    }
                }
                match deps.mark_good() {
                    Ok(_) => {
                        return (Ok(PollOutcome::Confirmed), Ghost(tr));
                    },
                    Err(e) => {
                        return (Err(PollError::Action(e)), Ghost(tr));
                    },
                }
            },
            HealthDecision::Bad(failed) => {
                let t = deps.now_ms();
                let ghost old_texts = texts_g;
                let ghost old_times = times_g;
                proof {
                    texts_g = texts_g.push(text@);
                    times_g = times_g.push(t as int);
                }
                if t < deadline {
                    proof {
                        assert forall|i: int|
                            0 <= i < times_g.len() implies start as int <= #[trigger] times_g[i]
                            <= u64::MAX as int by {
                            if i < old_times.len() {
                                assert(times_g[i] == old_times[i]);
                            }
                        }
                        assert forall|i: int, j: int|
                            0 <= i <= j < times_g.len() implies #[trigger] times_g[i]
                            <= #[trigger] times_g[j] by {
                            if j < old_times.len() {
                                assert(times_g[i] == old_times[i]);
                                assert(times_g[j] == old_times[j]);
                            } else if i < old_times.len() {
                                assert(times_g[i] == old_times[i]);
                                assert(old_times[i] <= t as int);
                            }
                        }
                    }
                    deps.sleep_ms(poll_interval_ms);
                    proof {
                        sleeps_g = sleeps_g + 1;
                    }
                } else {
                    let ghost tr = PollTrace {
                        start: start as int,
                        deadline: deadline as int,
                        texts: texts_g,
                        times: times_g,
                        sleeps: sleeps_g,
                        confirms: 0,
                        rollbacks: 1,
                    };
                    proof {
                        assert forall|i: int|
                            0 <= i < tr.sleeps implies !text_healthy(
                            #[trigger] tr.texts[i],
                            cfg@,
                        ) && tr.times[i] < tr.deadline by {
                            assert(tr.texts[i] == old_texts[i]);
                            assert(!text_healthy(old_texts[i], cfg@));
                            assert(old_times[i] < deadline as int);
                            assert(tr.times[i] == old_times[i]);
                        }
                        assert(tr.texts[tr.texts.len() - 1] == text@);
                        assert(tr.times[tr.times.len() - 1] == t as int);
                        assert forall|i: int|
                            0 <= i < tr.times.len() implies start as int <= #[trigger] tr.times[i]
                            <= u64::MAX as int by {
                            if i < old_times.len() {
                                assert(tr.times[i] == old_times[i]);
                            }
                        }
                        assert forall|i: int, j: int|
                            0 <= i <= j < tr.times.len() implies #[trigger] tr.times[i]
                            <= #[trigger] tr.times[j] by {
                            if j < old_times.len() {
                                assert(tr.times[i] == old_times[i]);
                                assert(tr.times[j] == old_times[j]);
                            } else if i < old_times.len() {
                                assert(tr.times[i] == old_times[i]);
                                assert(old_times[i] <= t as int);
                            }
                        }
                    }
                    let elapsed = if t >= start {
                        t - start
                    } else {
                        0
                    };
                    match deps.mark_bad() {
                        Ok(_) => {
                            return (Ok(PollOutcome::RolledBack(failed, elapsed)), Ghost(tr));
                        },
                        Err(e) => {
                            return (Err(PollError::Action(e)), Ghost(tr));
                        },
                    }
                }
            },
        }
    }
}

/// The message reported when the deadline passes while still unhealthy.
fn timeout_message() -> (r: String)
    ensures
        r@ == "OpenRC health check failed (timeout)"@,
{
    "OpenRC health check failed (timeout)".to_owned()
}

/// Runs the whole check-and-mark operation against injected collaborators,
/// with the policy given as a value: polls until healthy or until
/// `timeout_secunds` has passed, marking the slot good or bad accordingly.
/// Returns an error for a fetch failure, a marking failure, or a reached
/// deadline; success means the slot was confirmed. A zero poll interval is
/// raised to one millisecond. The trace of some conforming polling session
/// witnesses the result.
pub fn check_openrc_and_mark_with_cfg<D: OpenRcDeps>(
    args: &CheckOpenrcArgs,
    cfg: &HealthConfig,
    deps: &mut D,
) -> (r: Result<(), String>)
    ensures
        exists|res: Result<PollOutcome, PollError>, tr: PollTrace|
            #[trigger] poll_post(cfg@, ms_of_secs(args.timeout_secunds as int), res, tr) && ((r
                is Ok) <==> res matches Ok(PollOutcome::Confirmed)) && (res matches Ok(
                PollOutcome::RolledBack(_, _),
            ) ==> r matches Err(m) && m@ == "OpenRC health check failed (timeout)"@) && (res
                matches Err(PollError::StatusFetch(e)) ==> r == Err::<(), String>(e)) && (res
                matches Err(PollError::Action(e)) ==> r == Err::<(), String>(e)),
{
    let timeout_ms = if args.timeout_secunds <= u64::MAX / 1000 {
        args.timeout_secunds * 1000
    } else {
        u64::MAX
    };
    let interval = if args.poll_interval_ms >= 1 {
        args.poll_interval_ms
    } else {
        1
    };
    let (res, tr) = poll_until_healthy(cfg, timeout_ms, interval, deps);
    let r: Result<(), String> = match res {
        Ok(PollOutcome::Confirmed) => Ok(()),
        Ok(PollOutcome::RolledBack(_, _)) => Err(timeout_message()),
        Err(PollError::StatusFetch(e)) => Err(e),
        Err(PollError::Action(e)) => Err(e),
    };
    proof {
        assert(timeout_ms as int == ms_of_secs(args.timeout_secunds as int));
        assert(poll_post(cfg@, ms_of_secs(args.timeout_secunds as int), res, tr@));
    }
    r
}

/// As `check_openrc_and_mark_with_cfg`; reading a policy file named by
/// `args.config` is the caller's affair, so the policy arrives as a value
/// here too.
pub fn check_openrc_and_mark_with<D: OpenRcDeps>(
    args: &CheckOpenrcArgs,
    cfg: &HealthConfig,
    deps: &mut D,
) -> (r: Result<(), String>)
    ensures
        exists|res: Result<PollOutcome, PollError>, tr: PollTrace|
            #[trigger] poll_post(cfg@, ms_of_secs(args.timeout_secunds as int), res, tr) && ((r
                is Ok) <==> res matches Ok(PollOutcome::Confirmed)) && (res matches Ok(
                PollOutcome::RolledBack(_, _),
            ) ==> r matches Err(m) && m@ == "OpenRC health check failed (timeout)"@) && (res
                matches Err(PollError::StatusFetch(e)) ==> r == Err::<(), String>(e)) && (res
                matches Err(PollError::Action(e)) ==> r == Err::<(), String>(e)),
{
    check_openrc_and_mark_with_cfg(args, cfg, deps)
}

/// A status source that always reports healthy lets the controller confirm
/// on its first check: one fetch, one confirmation, and never a sleep.
pub proof fn lemma_always_healthy_confirms_first(
    pol: PolicyView,
    timeout_ms: int,
    r: Result<PollOutcome, PollError>,
    tr: PollTrace,
)
    requires
        poll_post(pol, timeout_ms, r, tr),
        forall|i: int| 0 <= i < tr.texts.len() ==> text_healthy(#[trigger] tr.texts[i], pol),
        r is Ok,
    ensures
        r matches Ok(PollOutcome::Confirmed),
        tr.texts.len() == 1,
        tr.sleeps == 0,
        tr.confirms == 1,
        tr.rollbacks == 0,
{
    if tr.sleeps > 0 {
        assert(!text_healthy(tr.texts[0], pol));
        assert(text_healthy(tr.texts[0], pol));
    }
}

/// With a zero timeout and an always-unhealthy status source, the
/// controller rolls back on its very first check: one fetch, one rollback,
/// and never a sleep.
pub proof fn lemma_timeout_zero_rolls_back_first(
    pol: PolicyView,
    r: Result<PollOutcome, PollError>,
    tr: PollTrace,
)
    requires
        poll_post(pol, 0, r, tr),
        forall|i: int| 0 <= i < tr.texts.len() ==> !text_healthy(#[trigger] tr.texts[i], pol),
        r is Ok,
    ensures
        r matches Ok(PollOutcome::RolledBack(_, _)),
        tr.texts.len() == 1,
        tr.sleeps == 0,
        tr.rollbacks == 1,
        tr.confirms == 0,
{
    assert(tr.deadline == tr.start);
    if tr.sleeps > 0 {
        assert(!text_healthy(tr.texts[0], pol) && tr.times[0] < tr.deadline);
        assert(tr.times[0] >= tr.start);
    }
}

/// A deterministic collaborator for driving the controller without real
/// time, real processes or real sleeping: status texts come from a fixed
/// script (the last entry repeats once the script is exhausted, and an
/// empty script fails every fetch), the clock starts at zero and advances
/// exactly by each requested sleep, the marking actions succeed or fail as
/// configured, and every call is counted. Counters saturate at their
/// largest value instead of overflowing.
pub struct ScriptedDeps {
    pub script: Vec<String>,
    pub fail_good: bool,
    pub fail_bad: bool,
    pub sim_now: u64,
    pub fetch_idx: usize,
    pub fetch_calls: u64,
    pub sleep_calls: u64,
    pub good_calls: u64,
    pub bad_calls: u64,
}

impl ScriptedDeps {
    /// A fresh collaborator that will serve the given texts in order.
    pub fn new(script: Vec<String>) -> (r: ScriptedDeps)
        ensures
            r.script == script,
            !r.fail_good,
            !r.fail_bad,
            r.sim_now == 0,
            r.fetch_idx == 0,
            r.fetch_calls == 0,
            r.sleep_calls == 0,
            r.good_calls == 0,
            r.bad_calls == 0,
    {
        ScriptedDeps {
            script,
            fail_good: false,
            fail_bad: false,
            sim_now: 0,
            fetch_idx: 0,
            fetch_calls: 0,
            sleep_calls: 0,
            good_calls: 0,
            bad_calls: 0,
        }
    }
}

impl OpenRcDeps for ScriptedDeps {
    open spec fn clock(&self) -> int {
        self.sim_now as int
    }

    fn run_rc_status(&mut self) -> (r: Result<String, String>) {
        if self.fetch_calls < u64::MAX {
            self.fetch_calls = self.fetch_calls + 1;
        }
        if self.script.len() == 0 {
            return Err("no status text scripted".to_owned());
        }
        let k = if self.fetch_idx < self.script.len() {
            self.fetch_idx
        } else {
            self.script.len() - 1
        };
        if k + 1 < self.script.len() {
            self.fetch_idx = k + 1;
        }
        Ok(self.script[k].clone())
    }

    fn now_ms(&mut self) -> (t: u64) {
        self.sim_now
    }

    fn sleep_ms(&mut self, ms: u64) {
        if self.sleep_calls < u64::MAX {
            self.sleep_calls = self.sleep_calls + 1;
        }
        self.sim_now = if self.sim_now <= u64::MAX - ms {
            self.sim_now + ms
        } else {
            u64::MAX
        };
    }

    fn mark_good(&mut self) -> (r: Result<(), String>) {
        if self.good_calls < u64::MAX {
            self.good_calls = self.good_calls + 1;
        }
        if self.fail_good {
            Err("scripted mark-good failure".to_owned())
        } else {
            Ok(())
        }
    }

    fn mark_bad(&mut self) -> (r: Result<(), String>) {
        if self.bad_calls < u64::MAX {
            self.bad_calls = self.bad_calls + 1;
        }
        if self.fail_bad {
            Err("scripted mark-bad failure".to_owned())
        } else {
            Ok(())
        }
    }
}

/// Retry counting. When the first `n_bad` status texts fail the policy,
/// later ones satisfy it, and every sampled clock value stays below the
/// deadline, the controller sleeps `n_bad` times and then confirms.
pub proof fn lemma_retry_until_healthy(
    pol: PolicyView,
    timeout_ms: int,
    r: Result<PollOutcome, PollError>,
    tr: PollTrace,
    n_bad: int,
)
    requires
        poll_post(pol, timeout_ms, r, tr),
        n_bad >= 0,
        forall|i: int|
            0 <= i < tr.texts.len() ==> (text_healthy(#[trigger] tr.texts[i], pol) <==> i >= n_bad),
        forall|i: int| 0 <= i < tr.times.len() ==> #[trigger] tr.times[i] < tr.deadline,
        r is Ok,
    ensures
        r matches Ok(PollOutcome::Confirmed),
        tr.sleeps == n_bad,
        tr.texts.len() == n_bad + 1,
        tr.confirms == 1,
{
    let n = tr.texts.len() as int;
    match r {
        Result::Ok(outcome) => match outcome {
            PollOutcome::Confirmed => {
                assert(text_healthy(tr.texts[n - 1], pol));
                assert(n - 1 >= n_bad);
                if tr.sleeps > n_bad {
                    assert(!text_healthy(tr.texts[n_bad], pol));
                    assert(text_healthy(tr.texts[n_bad], pol));
                }
            },
            PollOutcome::RolledBack(_, _) => {
                assert(tr.times[n - 1] >= tr.deadline);
                assert(tr.times[n - 1] < tr.deadline);
            },
        },
        Result::Err(_) => {},
    }
}

} // verus!
