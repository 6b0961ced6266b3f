//! Orchestration tests: the audit record comes exactly once and before any
//! effect, the transition events keep their order, and every outcome is
//! reported with the right error.

use sus::effects::{EffectLog, Event};
use sus::executable::Executable;
use sus::permission::Permission;
use sus::request::{Request, RequestError};
use sus::rules::{AllowedCmd, Rule, VerifyError};
use sus::run::{full_group_list, RunError};

fn perm(uid: u32, gid: u32, secondary: &[u32]) -> Permission {
    Permission { uid, primary_gid: gid, secondary_gids: secondary.to_vec() }
}

fn exe(path: &str) -> Executable {
    Executable { path: path.as_bytes().to_vec(), args: vec![path.as_bytes().to_vec()] }
}

fn allow_everything() -> Rule {
    let mut entry = AllowedCmd::new();
    entry.target_all_users = true;
    entry.allow_all_commands = true;
    let mut rule = Rule::new();
    rule.subject_all = true;
    rule.allowed_cmds = vec![entry];
    rule
}

fn ls_request(verifiers: Vec<Rule>) -> Request {
    Request {
        executable: exe("/bin/ls"),
        current_permissions: perm(1000, 100, &[4]),
        requested_permissions: perm(0, 5, &[3, 5, 1]),
        verifiers,
    }
}

#[test]
fn allowed_request_records_then_transitions_in_order() {
    let mut fx = EffectLog::new();
    let req = ls_request(vec![allow_everything()]);
    let r = req.service(&mut fx);
    // The double's exec always reports failure, so the service returns the
    // executor's error.
    assert_eq!(r, RequestError::Run { cause: RunError::Execute { errno: 13 } });
    assert_eq!(
        fx.events,
        vec![
            Event::Record {
                current: perm(1000, 100, &[4]),
                requested: perm(0, 5, &[3, 5, 1]),
                executable: exe("/bin/ls"),
                allowed: true,
                written: true,
            },
            // primary gid 5 unioned into {3, 5, 1}, sorted.
            Event::SetGroups(vec![1, 3, 5]),
            Event::SetGid(5),
            Event::SetUid(0),
            Event::Exec { path: b"/bin/ls".to_vec(), args: vec![b"/bin/ls".to_vec()] },
        ]
    );
}

#[test]
fn unlisted_command_is_denied_as_not_allowed() {
    // A rule for uid 1000 that allows only /bin/ls must deny /bin/rm.
    let mut entry = AllowedCmd::new();
    entry.target_all_users = true;
    entry.command_paths = vec![b"/bin/ls".to_vec()];
    let mut rule = Rule::new();
    rule.subject_uids = vec![1000];
    rule.allowed_cmds = vec![entry];

    let mut fx = EffectLog::new();
    let req = Request {
        executable: exe("/bin/rm"),
        current_permissions: perm(1000, 100, &[4]),
        requested_permissions: perm(0, 0, &[]),
        verifiers: vec![rule],
    };
    let r = req.service(&mut fx);
    assert_eq!(r, RequestError::Verify { cause: VerifyError::NotAllowed });
    assert_eq!(fx.events.len(), 1);
    assert!(matches!(fx.events[0], Event::Record { allowed: false, .. }));
}

#[test]
fn denied_request_is_still_recorded_and_nothing_runs() {
    let mut fx = EffectLog::new();
    let req = ls_request(Vec::new());
    let r = req.service(&mut fx);
    assert_eq!(r, RequestError::Verify { cause: VerifyError::NotAllowed });
    assert_eq!(
        fx.events,
        vec![Event::Record {
            current: perm(1000, 100, &[4]),
            requested: perm(0, 5, &[3, 5, 1]),
            executable: exe("/bin/ls"),
            allowed: false,
            written: true,
        }]
    );
}

#[test]
fn audit_failure_stops_an_allowed_request() {
    let mut fx = EffectLog::new();
    fx.record_ok = false;
    let req = ls_request(vec![allow_everything()]);
    let r = req.service(&mut fx);
    assert_eq!(r, RequestError::Log {});
    // Exactly one record was attempted and the executor was never invoked.
    assert_eq!(fx.events.len(), 1);
    assert!(matches!(fx.events[0], Event::Record { allowed: true, written: false, .. }));
}

#[test]
fn failing_uid_step_stops_before_exec() {
    let mut fx = EffectLog::new();
    fx.uid_errno = Some(1);
    let req = ls_request(vec![allow_everything()]);
    let r = req.service(&mut fx);
    assert_eq!(r, RequestError::Run { cause: RunError::SetUID { errno: 1 } });
    // Record, SetGroups, SetGid, then the failing SetUid; no Exec after it.
    assert_eq!(fx.events.len(), 4);
    assert!(matches!(fx.events[0], Event::Record { .. }));
    assert!(matches!(fx.events[1], Event::SetGroups(_)));
    assert!(matches!(fx.events[2], Event::SetGid(5)));
    assert!(matches!(fx.events[3], Event::SetUid(0)));
}

#[test]
fn failing_group_step_stops_first() {
    let mut fx = EffectLog::new();
    fx.group_errno = Some(22);
    let req = ls_request(vec![allow_everything()]);
    let r = req.service(&mut fx);
    assert_eq!(r, RequestError::Run { cause: RunError::SetSecondaryGID { errno: 22 } });
    assert_eq!(fx.events.len(), 2);
    assert!(matches!(fx.events[1], Event::SetGroups(_)));
}

#[test]
fn failing_primary_gid_step_stops_before_uid() {
    let mut fx = EffectLog::new();
    fx.gid_errno = Some(5);
    let req = ls_request(vec![allow_everything()]);
    let r = req.service(&mut fx);
    assert_eq!(r, RequestError::Run { cause: RunError::SetPrimaryGID { errno: 5 } });
    assert_eq!(fx.events.len(), 3);
    assert!(matches!(fx.events[2], Event::SetGid(5)));
}

#[test]
fn full_group_list_unions_sorts_and_dedups() {
    let p = perm(1000, 4, &[4, 7, 2, 4]);
    assert_eq!(full_group_list(&p), vec![2, 4, 7]);

    // Unioning the primary gid in is idempotent when already present.
    let q = perm(1000, 2, &[2]);
    assert_eq!(full_group_list(&q), vec![2]);

    // And adds it when absent.
    let s = perm(1000, 9, &[]);
    assert_eq!(full_group_list(&s), vec![9]);
}
