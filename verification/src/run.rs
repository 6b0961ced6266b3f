//! The executor: the ordered, irreversible identity transition and process
//! replacement. The full group list is built first — the requested primary
//! gid unioned into the secondary set, sorted into deterministic numeric
//! order — then group list, primary gid, and uid are installed in that order,
//! and only then is the process image replaced.

use vstd::prelude::*;

use crate::effects::{Effects, EventV};
use crate::executable::{Executable, ExecutableV};
use crate::permission::{Permission, PermissionV};

verus! {

/// The ids of `s` are in strictly increasing order (so also pairwise
/// distinct).
pub open spec fn strictly_sorted(s: Seq<u32>) -> bool {
    forall|i: int, j: int| 0 <= i < j < s.len() ==> s[i] < s[j]
}

/// `gs` is the full group list for the requested identity: strictly sorted,
/// holding exactly the secondary gids and the primary gid.
pub open spec fn spec_full_groups_ok(req: PermissionV, gs: Seq<u32>) -> bool {
    strictly_sorted(gs) && forall|g: u32|
        #[trigger] gs.contains(g) <==> (req.secondary_gids.contains(g) || g == req.primary_gid)
}

/// The full group list for the requested identity. It is well defined:
/// [`lemma_full_groups_canonical`] shows there is exactly one list satisfying
/// [`spec_full_groups_ok`], and [`full_group_list`] computes it.
pub open spec fn spec_full_groups(req: PermissionV) -> Seq<u32> {
    choose|gs: Seq<u32>| spec_full_groups_ok(req, gs)
}

/// Two strictly sorted id sequences with the same members are equal.
pub proof fn lemma_strictly_sorted_unique(a: Seq<u32>, b: Seq<u32>)
    requires
        strictly_sorted(a),
        strictly_sorted(b),
        forall|g: u32| #[trigger] a.contains(g) <==> #[trigger] b.contains(g),
    ensures
        a == b,
    decreases a.len(),
{
    if a.len() == 0 {
        if b.len() > 0 {
            assert(b.contains(b[0]));
            assert(a.contains(b[0]));
        }
        assert(a =~= b);
    } else {
        assert(a.contains(a[0]));
        assert(b.contains(a[0]));
        assert(b.len() > 0);
        assert(b.contains(b[0]));
        assert(a.contains(b[0]));
        let ia = choose|i: int| 0 <= i < a.len() && a[i] == b[0];
        let ib = choose|i: int| 0 <= i < b.len() && b[i] == a[0];
        assert(a[0] <= a[ia] && b[0] <= b[ib]);
        assert(a[0] == b[0]);
        let at = a.drop_first();
        let bt = b.drop_first();
        assert forall|g: u32| #[trigger] at.contains(g) <==> #[trigger] bt.contains(g) by {
            if at.contains(g) {
                let i = choose|i: int| 0 <= i < at.len() && at[i] == g;
                assert(a[i + 1] == g);
                assert(a.contains(g));
                assert(g > a[0]);
                assert(b.contains(g));
                let j = choose|j: int| 0 <= j < b.len() && b[j] == g;
                assert(j != 0);
                assert(bt[j - 1] == g);
            }
            if bt.contains(g) {
                let i = choose|i: int| 0 <= i < bt.len() && bt[i] == g;
                assert(b[i + 1] == g);
                assert(b.contains(g));
                assert(g > b[0]);
                assert(a.contains(g));
                let j = choose|j: int| 0 <= j < a.len() && a[j] == g;
                assert(j != 0);
                assert(at[j - 1] == g);
            }
        }
        lemma_strictly_sorted_unique(at, bt);
        assert(a.len() == b.len());
        assert forall|i: int| 0 <= i < a.len() implies a[i] == b[i] by {
            if i > 0 {
                assert(at[i - 1] == bt[i - 1]);
                assert(a[i] == at[i - 1]);
                assert(b[i] == bt[i - 1]);
            }
        }
        assert(a =~= b);
    }
}

/// The one list [`spec_full_groups_ok`] admits is [`spec_full_groups`].
pub proof fn lemma_full_groups_canonical(req: PermissionV, gs: Seq<u32>)
    requires
        spec_full_groups_ok(req, gs),
    ensures
        spec_full_groups(req) == gs,
{
    assert(spec_full_groups_ok(req, spec_full_groups(req)));
    lemma_strictly_sorted_unique(spec_full_groups(req), gs);
}

/// Inserts `x` into the strictly sorted vector `v`, keeping it strictly
/// sorted; inserting a present id changes nothing.
fn insert_sorted(v: &mut Vec<u32>, x: u32)
    requires
        strictly_sorted(old(v)@),
    ensures
        strictly_sorted(final(v)@),
        forall|g: u32| #[trigger] final(v)@.contains(g) <==> (old(v)@.contains(g) || g == x),
{
    let mut pos: usize = 0;
    while pos < v.len() && v[pos] < x
        invariant
            0 <= pos <= v@.len(),
            strictly_sorted(v@),
            forall|i: int| 0 <= i < pos ==> v@[i] < x,
        decreases v@.len() - pos,
    {
        pos = pos + 1;
    }
    if pos < v.len() && v[pos] == x {
        proof {
            assert(v@.contains(x));
        }
        return ;
    }
    let ghost prev = v@;
    v.insert(pos, x);
    proof {
        let now = v@;
        assert(now == prev.insert(pos as int, x));
        assert(forall|i: int| 0 <= i < pos ==> now[i] == prev[i]);
        assert(now[pos as int] == x);
        assert(forall|i: int| pos < i < now.len() ==> now[i] == prev[i - 1]);
        assert(pos < prev.len() ==> prev[pos as int] > x);
        assert forall|i: int, j: int| 0 <= i < j < now.len() implies now[i] < now[j] by {
            if i < pos && j > pos {
                assert(now[i] < x);
                assert(prev[j - 1] >= prev[pos as int]);
            }
        }
        assert forall|g: u32| #[trigger] now.contains(g) <==> (prev.contains(g) || g == x) by {
            if now.contains(g) {
                let i = choose|i: int| 0 <= i < now.len() && now[i] == g;
                if i < pos {
                    assert(prev[i] == g);
                    assert(prev.contains(g));
                } else if i > pos {
                    assert(prev[i - 1] == g);
                    assert(prev.contains(g));
                }
            }
            if prev.contains(g) {
                let i = choose|i: int| 0 <= i < prev.len() && prev[i] == g;
                if i < pos {
                    assert(now[i] == g);
                } else {
                    assert(now[i + 1] == g);
                }
                assert(now.contains(g));
            }
            if g == x {
                assert(now[pos as int] == g);
                assert(now.contains(g));
            }
        }
    }
}

/// Builds the full group list for the requested identity: the union of its
/// secondary gids and its primary gid (idempotent when the primary is
/// already present), in strictly increasing numeric order.
pub fn full_group_list(perm: &Permission) -> (v: Vec<u32>)
    ensures
        spec_full_groups_ok(perm@, v@),
        v@ == spec_full_groups(perm@),
{
    let mut v: Vec<u32> = Vec::new();
    let mut i: usize = 0;
    while i < perm.secondary_gids.len()
        invariant
            0 <= i <= perm.secondary_gids@.len(),
            strictly_sorted(v@),
            forall|g: u32|
                #[trigger] v@.contains(g) <==> perm.secondary_gids@.take(i as int).contains(g),
        decreases perm.secondary_gids@.len() - i,
    {
        let ghost prev = v@;
        insert_sorted(&mut v, perm.secondary_gids[i]);
        i = i + 1;
        proof {
            let t = perm.secondary_gids@.take(i as int);
            assert(t =~= perm.secondary_gids@.take(i as int - 1).push(
                perm.secondary_gids@[i as int - 1],
            ));
            assert forall|g: u32| #[trigger] v@.contains(g) <==> t.contains(g) by {
                let t0 = perm.secondary_gids@.take(i as int - 1);
                if t.contains(g) {
                    let k = choose|k: int| 0 <= k < t.len() && t[k] == g;
                    if k < t.len() - 1 {
                        assert(t0[k] == g);
                        assert(t0.contains(g));
                    }
                }
                if t0.contains(g) {
                    let k = choose|k: int| 0 <= k < t0.len() && t0[k] == g;
                    assert(t[k] == g);
                    assert(t.contains(g));
                }
                if g == perm.secondary_gids@[i as int - 1] {
                    assert(t.last() == g);
                    assert(t.contains(g));
                }
            }
        }
    }
    proof {
        assert(perm.secondary_gids@.take(i as int) =~= perm.secondary_gids@);
    }
    insert_sorted(&mut v, perm.primary_gid);
    proof {
        lemma_full_groups_canonical(perm@, v@);
    }
    v
}

/// Why the executor returned: any one of its steps can fail, each leaving
/// the process in an indeterminate, partially transitioned state, so the
/// error is tagged with the step it came from and must be treated as fatal.
#[derive(Debug, PartialEq, Eq, Structural)]
pub enum RunError {
    /// The uid change failed.
    SetUID { errno: i32 },
    /// The primary gid change failed.
    SetPrimaryGID { errno: i32 },
    /// Installing the group list failed.
    SetSecondaryGID { errno: i32 },
    /// Replacing the process image failed.
    Execute { errno: i32 },
}

/// The four transition events for a requested identity and target, in the
/// order the executor must perform them: group list first (the call needs
/// privilege typically lost after the uid change), then primary gid, then
/// uid last among the identity mutations, then the image replacement.
pub open spec fn spec_transition_events(req: PermissionV, exe: ExecutableV) -> Seq<EventV> {
    seq![
        EventV::SetGroups(spec_full_groups(req)),
        EventV::SetGid(req.primary_gid),
        EventV::SetUid(req.uid),
        EventV::Exec { path: exe.path, args: exe.args },
    ]
}

/// Runs the identity transition and replaces the process image. On success
/// the call never returns. Whenever it returns, it returns a step-tagged
/// error, and the trace has grown by exactly the transition events up to and
/// including the failing step, in order: a later step is never attempted
/// after an earlier one fails.
pub fn exec<E: Effects>(perm: &Permission, execable: &Executable, fx: &mut E) -> (r: RunError)
    requires
        execable.wf(),
    ensures
        ({
            let ev = spec_transition_events(perm@, execable@);
            match r {
                RunError::SetSecondaryGID { errno } => final(fx).trace() == old(fx).trace()
                    + ev.take(1),
                RunError::SetPrimaryGID { errno } => final(fx).trace() == old(fx).trace() + ev.take(
                    2,
                ),
                RunError::SetUID { errno } => final(fx).trace() == old(fx).trace() + ev.take(3),
                RunError::Execute { errno } => final(fx).trace() == old(fx).trace() + ev,
            }
        }),
{
    let ghost ev = spec_transition_events(perm@, execable@);
    let gids = full_group_list(perm);
    if let Err(errno) = fx.set_group_list(&gids) {
        proof {
            assert(final(fx).trace() =~= old(fx).trace() + ev.take(1));
        }
        return RunError::SetSecondaryGID { errno };
    }
    if let Err(errno) = fx.set_primary_gid(perm.primary_gid) {
        proof {
            assert(final(fx).trace() =~= old(fx).trace() + ev.take(2));
        }
        return RunError::SetPrimaryGID { errno };
    }
    if let Err(errno) = fx.set_uid(perm.uid) {
        proof {
            assert(final(fx).trace() =~= old(fx).trace() + ev.take(3));
        }
        return RunError::SetUID { errno };
    }
    let errno = fx.exec(execable);
    proof {
        assert(final(fx).trace() =~= old(fx).trace() + ev);
    }
    RunError::Execute { errno }
}

} // verus!
