//! Request orchestration: evaluate every verifier with a fail-safe default
//! of deny, invoke the audit hook unconditionally before anything
//! irrevocable, and only then hand off to the executor. Servicing never
//! returns on success; whatever comes back is an error.

use vstd::prelude::*;

use crate::effects::{Effects, EventV};
use crate::executable::Executable;
use crate::permission::Permission;
use crate::rules::{evaluate, spec_evaluate, Rule, VerifyError};
use crate::run::{exec, spec_transition_events, RunError};

verus! {

/// The event is an audit record.
pub open spec fn is_record_event(e: EventV) -> bool {
    e is Record
}

/// The place of an event in the one order a request may perform effects in:
/// the audit record strictly before every transition, the group list before
/// the primary gid, the primary gid before the uid, the uid before the exec.
pub open spec fn event_rank(e: EventV) -> int {
    match e {
        EventV::Record { .. } => 0,
        EventV::SetGroups(_) => 1,
        EventV::SetGid(_) => 2,
        EventV::SetUid(_) => 3,
        EventV::Exec { .. } => 4,
    }
}

/// Audit-before-effect: the events of one request start with exactly one
/// audit record, and no further record follows.
pub open spec fn audited_once_first(t: Seq<EventV>) -> bool {
    t.len() >= 1 && is_record_event(t[0]) && forall|i: int|
        1 <= i < t.len() ==> !is_record_event(#[trigger] t[i])
}

/// Transition order: the events of one request come in strictly increasing
/// rank, so the group-set is observed before the uid-set and the uid-set
/// before the exec, whatever step failed.
pub open spec fn effects_ordered(t: Seq<EventV>) -> bool {
    forall|i: int, j: int| 0 <= i < j < t.len() ==> event_rank(t[i]) < event_rank(t[j])
}

/// A user request: the executable to run, the current and the requested
/// permission sets, and the verifiers to consult. Any single verifier that
/// matches grants the request.
#[derive(Debug)]
pub struct Request {
    /// The executable to run.
    pub executable: Executable,
    /// The current permissions of the user.
    pub current_permissions: Permission,
    /// The permissions to run the executable with.
    pub requested_permissions: Permission,
    /// The rule-backed verifiers to consult, in policy order.
    pub verifiers: Vec<Rule>,
}

/// Why servicing a request returned. Ideally it never returns: on a granted
/// request the process image is replaced. A [`Run`] error means the
/// application is in an indeterminate, partially transitioned state and must
/// terminate at once.
///
/// [`Run`]: RequestError::Run
#[derive(Debug, PartialEq, Eq, Structural)]
pub enum RequestError {
    /// Verification denied the request.
    Verify { cause: VerifyError },
    /// The audit hook failed to record the request; an un-audited privilege
    /// escalation is unacceptable, so this surfaces even when verification
    /// succeeded.
    Log {},
    /// The executor returned: one of the transition steps failed.
    Run { cause: RunError },
}

proof fn lemma_record_only_suffix(rec: EventV)
    requires
        is_record_event(rec),
    ensures
        audited_once_first(seq![rec]),
        effects_ordered(seq![rec]),
{
    let s = seq![rec];
    assert(s.len() == 1);
    assert(s[0] == rec);
}

proof fn lemma_transition_suffix(
    rec: EventV,
    req: crate::permission::PermissionV,
    exe: crate::executable::ExecutableV,
    k: int,
)
    requires
        is_record_event(rec),
        1 <= k <= 4,
    ensures
        ({
            let s = seq![rec] + spec_transition_events(req, exe).take(k);
            audited_once_first(s) && effects_ordered(s) && s[0] == rec
        }),
{
    let ev = spec_transition_events(req, exe);
    let s = seq![rec] + ev.take(k);
    assert(event_rank(ev[0]) == 1);
    assert(event_rank(ev[1]) == 2);
    assert(event_rank(ev[2]) == 3);
    assert(event_rank(ev[3]) == 4);
    assert(s.len() == k + 1);
    assert(s[0] == rec);
    assert(forall|i: int| 1 <= i < s.len() ==> s[i] == ev[i - 1]);
    assert(forall|i: int| 1 <= i < s.len() ==> event_rank(#[trigger] s[i]) == i);
    assert(forall|i: int| 1 <= i < s.len() ==> !is_record_event(#[trigger] s[i]));
    assert(event_rank(s[0]) == 0);
}

impl Request {
    /// Services the request, strictly in this order: evaluate all verifiers
    /// into one aggregate outcome; invoke the audit hook with the full
    /// context unconditionally — both allowed and denied attempts are
    /// recorded, and a failure there is its own error; stop on deny; and
    /// only then hand off to the executor. Every path appends exactly one
    /// audit record before any transition event, and the transition events
    /// keep their order ([`audited_once_first`], [`effects_ordered`]). A
    /// returning executor is reported as a [`RequestError::Run`] error:
    /// the process-image replacement did not occur and no reduced-privilege
    /// state may be assumed.
    pub fn service<E: Effects>(self, fx: &mut E) -> (r: RequestError)
        requires
            self.executable.wf(),
        ensures
            ({
                let allowed = spec_evaluate(
                    self.verifiers.deep_view(),
                    self.current_permissions@,
                    self.requested_permissions@,
                    self.executable@,
                );
                let rec = EventV::Record {
                    current: self.current_permissions@,
                    requested: self.requested_permissions@,
                    executable: self.executable@,
                    allowed,
                    written: !(r is Log),
                };
                let suffix = final(fx).trace().skip(old(fx).trace().len() as int);
                &&& final(fx).trace().len() > old(fx).trace().len()
                &&& final(fx).trace().take(old(fx).trace().len() as int) == old(fx).trace()
                &&& suffix[0] == rec
                &&& audited_once_first(suffix)
                &&& effects_ordered(suffix)
                &&& match r {
                    RequestError::Log {} => final(fx).trace() == old(fx).trace().push(rec),
                    RequestError::Verify { cause } => !allowed && cause == VerifyError::NotAllowed
                        && final(fx).trace() == old(fx).trace().push(rec),
                    RequestError::Run { cause } => allowed && {
                        let ev = spec_transition_events(
                            self.requested_permissions@,
                            self.executable@,
                        );
                        match cause {
                            RunError::SetSecondaryGID { errno } => final(fx).trace() == old(
                                fx,
                            ).trace().push(rec) + ev.take(1),
                            RunError::SetPrimaryGID { errno } => final(fx).trace() == old(
                                fx,
                            ).trace().push(rec) + ev.take(2),
                            RunError::SetUID { errno } => final(fx).trace() == old(
                                fx,
                            ).trace().push(rec) + ev.take(3),
                            RunError::Execute { errno } => final(fx).trace() == old(
                                fx,
                            ).trace().push(rec) + ev,
                        }
                    },
                }
            }),
    {
        let ghost t0 = fx.trace();
        let allowed = evaluate(
            &self.current_permissions,
            &self.requested_permissions,
            &self.executable,
            &self.verifiers,
        );
        let ok = fx.record(
            &self.current_permissions,
            &self.requested_permissions,
            &self.executable,
            allowed,
        );
        let ghost rec = EventV::Record {
            current: self.current_permissions@,
            requested: self.requested_permissions@,
            executable: self.executable@,
            allowed,
            written: ok,
        };
        if !ok {
            proof {
                lemma_record_only_suffix(rec);
                assert(fx.trace().skip(t0.len() as int) =~= seq![rec]);
                assert(fx.trace().take(t0.len() as int) =~= t0);
            }
            return RequestError::Log {  };
        }
        if !allowed {
            proof {
                lemma_record_only_suffix(rec);
                assert(fx.trace().skip(t0.len() as int) =~= seq![rec]);
                assert(fx.trace().take(t0.len() as int) =~= t0);
            }
            return RequestError::Verify { cause: VerifyError::NotAllowed };
        }
        let cause = exec(&self.requested_permissions, &self.executable, fx);
        proof {
            let ev = spec_transition_events(self.requested_permissions@, self.executable@);
            let k: int = match cause {
                RunError::SetSecondaryGID { .. } => 1,
                RunError::SetPrimaryGID { .. } => 2,
                RunError::SetUID { .. } => 3,
                RunError::Execute { .. } => 4,
            };
            assert(ev.take(4) =~= ev);
            lemma_transition_suffix(rec, self.requested_permissions@, self.executable@, k);
            assert(fx.trace() =~= t0.push(rec) + ev.take(k));
            assert(fx.trace().skip(t0.len() as int) =~= seq![rec] + ev.take(k));
            assert(fx.trace().take(t0.len() as int) =~= t0);
        }
        RequestError::Run { cause }
    }
}

} // verus!
