//! The kernel's outward-facing effects — the audit record and the ordered
//! identity-transition calls — modeled as a single trace of events, so that
//! contracts can state in which order the collaborators are invoked.

use vstd::prelude::*;

use crate::executable::{Executable, ExecutableV};
use crate::permission::{Permission, PermissionV};

verus! {

/// One observable effect of servicing a request.
#[derive(Debug, PartialEq, Eq)]
pub enum Event {
    /// The audit hook was invoked with the full request context and the
    /// verify outcome; `written` is whether the hook reported the record as
    /// written.
    Record {
        current: Permission,
        requested: Permission,
        executable: Executable,
        allowed: bool,
        written: bool,
    },
    /// The process's complete group list was installed.
    SetGroups(Vec<u32>),
    /// The process's primary group identity was set.
    SetGid(u32),
    /// The process's user identity was set.
    SetUid(u32),
    /// The process image was replaced with the target program, with an empty
    /// environment.
    Exec { path: Vec<u8>, args: Vec<Vec<u8>> },
}

/// The mathematical value of an [`Event`].
pub enum EventV {
    Record {
        current: PermissionV,
        requested: PermissionV,
        executable: ExecutableV,
        allowed: bool,
        written: bool,
    },
    SetGroups(Seq<u32>),
    SetGid(u32),
    SetUid(u32),
    Exec { path: Seq<u8>, args: Seq<Seq<u8>> },
}

impl View for Event {
    type V = EventV;

    open spec fn view(&self) -> EventV {
        match self {
            Event::Record { current, requested, executable, allowed, written } => EventV::Record {
                current: current@,
                requested: requested@,
                executable: executable@,
                allowed: *allowed,
                written: *written,
            },
            Event::SetGroups(gids) => EventV::SetGroups(gids@),
            Event::SetGid(g) => EventV::SetGid(*g),
            Event::SetUid(u) => EventV::SetUid(*u),
            Event::Exec { path, args } => EventV::Exec { path: path@, args: args.deep_view() },
        }
    }
}

impl DeepView for Event {
    type V = EventV;

    open spec fn deep_view(&self) -> EventV {
        self.view()
    }
}

/// The collaborators a request consumes, behind one interface: the audit hook
/// and the OS identity/exec calls. Each method appends its event to the
/// trace, so a caller's contract can pin down what was invoked, with which
/// arguments, and in which order. Success cannot be promised for any of
/// them — the environment decides — so each reports its outcome.
pub trait Effects {
    /// Every effect performed so far, oldest first.
    spec fn trace(&self) -> Seq<EventV>;

    /// Invokes the audit hook with the full request context and the verify
    /// outcome; reports whether the record was written, and the trace's
    /// record event carries that same report.
    fn record(
        &mut self,
        current: &Permission,
        requested: &Permission,
        executable: &Executable,
        allowed: bool,
    ) -> (ok: bool)
        ensures
            final(self).trace() == old(self).trace().push(
                EventV::Record {
                    current: current@,
                    requested: requested@,
                    executable: executable@,
                    allowed,
                    written: ok,
                },
            ),
    ;

    /// Installs `gids` as the process's complete group list; on failure
    /// reports the errno.
    fn set_group_list(&mut self, gids: &Vec<u32>) -> (r: Result<(), i32>)
        ensures
            final(self).trace() == old(self).trace().push(EventV::SetGroups(gids@)),
    ;

    /// Sets the process's primary group identity; on failure reports the
    /// errno.
    fn set_primary_gid(&mut self, gid: u32) -> (r: Result<(), i32>)
        ensures
            final(self).trace() == old(self).trace().push(EventV::SetGid(gid)),
    ;

    /// Sets the process's user identity; on failure reports the errno.
    fn set_uid(&mut self, uid: u32) -> (r: Result<(), i32>)
        ensures
            final(self).trace() == old(self).trace().push(EventV::SetUid(uid)),
    ;

    /// Replaces the process image with the target program, passing no
    /// inherited environment. On success this call does not return; so
    /// whenever it returns, it returns the errno of the failure.
    fn exec(&mut self, executable: &Executable) -> (errno: i32)
        requires
            executable.wf(),
        ensures
            final(self).trace() == old(self).trace().push(
                EventV::Exec { path: executable@.path, args: executable@.args },
            ),
    ;
}

/// An in-memory [`Effects`] double: it performs nothing, stores every event,
/// and answers with pre-set outcomes, so the orchestration can be exercised
/// and observed without touching the process's real identity.
#[derive(Debug)]
pub struct EffectLog {
    /// Every event observed so far, oldest first.
    pub events: Vec<Event>,
    /// What [`Effects::record`] reports.
    pub record_ok: bool,
    /// The errno [`Effects::set_group_list`] fails with, if any.
    pub group_errno: Option<i32>,
    /// The errno [`Effects::set_primary_gid`] fails with, if any.
    pub gid_errno: Option<i32>,
    /// The errno [`Effects::set_uid`] fails with, if any.
    pub uid_errno: Option<i32>,
    /// The errno [`Effects::exec`] reports; the double never replaces the
    /// process image, so its exec always "fails".
    pub exec_errno: i32,
}

impl EffectLog {
    /// A fresh log on which every step succeeds, except exec itself, which
    /// reports `exec_errno`.
    pub fn new() -> (r: EffectLog)
        ensures
            r.trace() =~= Seq::<EventV>::empty(),
            r.record_ok,
            r.group_errno is None,
            r.gid_errno is None,
            r.uid_errno is None,
    {
        EffectLog {
            events: Vec::new(),
            record_ok: true,
            group_errno: None,
            gid_errno: None,
            uid_errno: None,
            exec_errno: 13,
        }
    }
}

impl Effects for EffectLog {
    open spec fn trace(&self) -> Seq<EventV> {
        self.events.deep_view()
    }

    fn record(
        &mut self,
        current: &Permission,
        requested: &Permission,
        executable: &Executable,
        allowed: bool,
    ) -> (ok: bool) {
        let ghost prev = self.events.deep_view();
        let ok = self.record_ok;
        self.events.push(
            Event::Record {
                current: current.clone(),
                requested: requested.clone(),
                executable: executable.clone(),
                allowed,
                written: ok,
            },
        );
        proof {
            assert(self.events.deep_view() =~= prev.push(
                EventV::Record {
                    current: current@,
                    requested: requested@,
                    executable: executable@,
                    allowed,
                    written: ok,
                },
            ));
        }
        ok
    }

    fn set_group_list(&mut self, gids: &Vec<u32>) -> (r: Result<(), i32>) {
        let ghost prev = self.events.deep_view();
        self.events.push(Event::SetGroups(vstd::slice::slice_to_vec(gids.as_slice())));
        proof {
            assert(self.events.deep_view() =~= prev.push(EventV::SetGroups(gids@)));
        }
        match self.group_errno {
            Some(e) => Err(e),
            None => Ok(()),
        }
    }

    fn set_primary_gid(&mut self, gid: u32) -> (r: Result<(), i32>) {
        let ghost prev = self.events.deep_view();
        self.events.push(Event::SetGid(gid));
        proof {
            assert(self.events.deep_view() =~= prev.push(EventV::SetGid(gid)));
        }
        match self.gid_errno {
            Some(e) => Err(e),
            None => Ok(()),
        }
    }

    fn set_uid(&mut self, uid: u32) -> (r: Result<(), i32>) {
        let ghost prev = self.events.deep_view();
        self.events.push(Event::SetUid(uid));
        proof {
            assert(self.events.deep_view() =~= prev.push(EventV::SetUid(uid)));
        }
        match self.uid_errno {
            Some(e) => Err(e),
            None => Ok(()),
        }
    }

    fn exec(&mut self, executable: &Executable) -> (errno: i32) {
        let ghost prev = self.events.deep_view();
        let copy = executable.clone();
        self.events.push(Event::Exec { path: copy.path, args: copy.args });
        proof {
            assert(self.events.deep_view() =~= prev.push(
                EventV::Exec { path: executable@.path, args: executable@.args },
            ));
        }
        self.exec_errno
    }
}

/// What the library cannot do for itself when a request is serviced for
/// real: writing the audit record out (file I/O) and the final process-image
/// replacement. Nothing is assumed of either; an implementation reports its
/// outcome and the contracts of [`Effects`] hold of every outcome.
pub trait KernelBackend {
    /// Writes one audit entry; reports whether the write succeeded.
    fn write_entry(
        &mut self,
        current: &Permission,
        requested: &Permission,
        executable: &Executable,
        allowed: bool,
    ) -> bool;

    /// Replaces the process image with the target, passing no inherited
    /// environment; whenever it returns, it returns the errno of the
    /// failure.
    fn exec_image(&mut self, executable: &Executable) -> i32;
}

/// The real [`Effects`]: the audit write and the exec go through the
/// [`KernelBackend`], and the identity transitions call the OS directly.
pub struct SystemEffects<B: KernelBackend> {
    /// The backend performing audit writes and the exec.
    pub backend: B,
    /// The trace of effects performed, for specification only.
    pub history: Ghost<Seq<EventV>>,
}

impl<B: KernelBackend> SystemEffects<B> {
    /// Wraps a backend; no effect has been performed yet.
    pub fn new(backend: B) -> (r: SystemEffects<B>)
        ensures
            r.trace() =~= Seq::<EventV>::empty(),
    {
        SystemEffects { backend, history: Ghost(Seq::empty()) }
    }
}

/// Relies on nix::unistd::setgroups: installs the given ids as the process's
/// complete supplementary group list, returning the errno on failure.
#[verifier::external_body]
fn os_set_groups(gids: &Vec<u32>) -> Result<(), i32> {
    let v: Vec<nix::unistd::Gid> = gids.iter().map(|g| nix::unistd::Gid::from_raw(*g)).collect();
    match nix::unistd::setgroups(&v) {
        Ok(()) => Ok(()),
        Err(e) => Err(e as i32),
    }
}

/// Relies on nix::unistd::setgid: sets the process's primary group identity,
/// returning the errno on failure.
#[verifier::external_body]
fn os_set_gid(gid: u32) -> Result<(), i32> {
    match nix::unistd::setgid(nix::unistd::Gid::from_raw(gid)) {
        Ok(()) => Ok(()),
        Err(e) => Err(e as i32),
    }
}

/// Relies on nix::unistd::setuid: sets the process's user identity,
/// returning the errno on failure.
#[verifier::external_body]
fn os_set_uid(uid: u32) -> Result<(), i32> {
    match nix::unistd::setuid(nix::unistd::Uid::from_raw(uid)) {
        Ok(()) => Ok(()),
        Err(e) => Err(e as i32),
    }
}

impl<B: KernelBackend> Effects for SystemEffects<B> {
    open spec fn trace(&self) -> Seq<EventV> {
        self.history@
    }

    fn record(
        &mut self,
        current: &Permission,
        requested: &Permission,
        executable: &Executable,
        allowed: bool,
    ) -> (ok: bool) {
        let ok = self.backend.write_entry(current, requested, executable, allowed);
        self.history = Ghost(
            self.history@.push(
                EventV::Record {
                    current: current@,
                    requested: requested@,
                    executable: executable@,
                    allowed,
                    written: ok,
                },
            ),
        );
        ok
    }

    fn set_group_list(&mut self, gids: &Vec<u32>) -> (r: Result<(), i32>) {
        let r = os_set_groups(gids);
        self.history = Ghost(self.history@.push(EventV::SetGroups(gids@)));
        r
    }

    fn set_primary_gid(&mut self, gid: u32) -> (r: Result<(), i32>) {
        let r = os_set_gid(gid);
        self.history = Ghost(self.history@.push(EventV::SetGid(gid)));
        r
    }

    fn set_uid(&mut self, uid: u32) -> (r: Result<(), i32>) {
        let r = os_set_uid(uid);
        self.history = Ghost(self.history@.push(EventV::SetUid(uid)));
        r
    }

    fn exec(&mut self, executable: &Executable) -> (errno: i32) {
        let errno = self.backend.exec_image(executable);
        self.history = Ghost(
            self.history@.push(EventV::Exec { path: executable@.path, args: executable@.args }),
        );
        errno
    }
}

} // verus!
