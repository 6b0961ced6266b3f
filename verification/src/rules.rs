//! Resolved rules and the authorization algorithm: a predicate over (current
//! identity, requested identity, target program), evaluated rule by rule with
//! a fail-safe default of deny.

use vstd::prelude::*;

use crate::executable::{Executable, ExecutableV};
use crate::parse::{contains_bytes, contains_id, ids_intersect};
use crate::permission::{Permission, PermissionV};
use crate::sudoers::RuleOption;

verus! {

/// Why verification did not let a request through. Denial is not
/// differentiated by cause: every non-match surfaces as [`NotAllowed`]. The
/// other variants stand for a verifier that could not find or could not read
/// what it needed.
///
/// [`NotAllowed`]: VerifyError::NotAllowed
#[derive(Debug, Clone, Copy, PartialEq, Eq, Structural)]
pub enum VerifyError {
    /// The user is not allowed to run the executable as requested.
    NotAllowed,
    /// Some component needed for verification was not found.
    NotFound,
    /// Some component needed for verification could not be parsed.
    Malformed,
}

/// One resolved allowed-command entry: which identities the command may run
/// as, and which command paths it covers, with wildcards lowered to flags.
#[derive(Debug, PartialEq, Eq)]
pub struct AllowedCmd {
    /// The uids the command may run as.
    pub target_uids: Vec<u32>,
    /// The gids the command may run as.
    pub target_gids: Vec<u32>,
    /// The wildcard stood in the run-as user slot: every requested user
    /// matches.
    pub target_all_users: bool,
    /// The wildcard stood in the run-as group slot: every requested group
    /// matches.
    pub target_all_groups: bool,
    /// The command paths the entry covers, as byte strings.
    pub command_paths: Vec<Vec<u8>>,
    /// The wildcard stood in the command slot: every target matches.
    pub allow_all_commands: bool,
    /// The options the entry carries, surfaced for downstream enforcement.
    pub options: Vec<RuleOption>,
}

/// The mathematical value of an [`AllowedCmd`].
pub struct AllowedCmdV {
    pub target_uids: Seq<u32>,
    pub target_gids: Seq<u32>,
    pub target_all_users: bool,
    pub target_all_groups: bool,
    pub command_paths: Seq<Seq<u8>>,
    pub allow_all_commands: bool,
    pub options: Seq<RuleOption>,
}

impl View for AllowedCmd {
    type V = AllowedCmdV;

    open spec fn view(&self) -> AllowedCmdV {
        AllowedCmdV {
            target_uids: self.target_uids@,
            target_gids: self.target_gids@,
            target_all_users: self.target_all_users,
            target_all_groups: self.target_all_groups,
            command_paths: self.command_paths.deep_view(),
            allow_all_commands: self.allow_all_commands,
            options: self.options@,
        }
    }
}

impl DeepView for AllowedCmd {
    type V = AllowedCmdV;

    open spec fn deep_view(&self) -> AllowedCmdV {
        self.view()
    }
}

/// One resolved rule: the subjects it grants permission to and the
/// allowed-command entries it grants them, in source order.
#[derive(Debug, PartialEq, Eq)]
pub struct Rule {
    /// The uids the rule applies to.
    pub subject_uids: Vec<u32>,
    /// The gids the rule applies to.
    pub subject_gids: Vec<u32>,
    /// The wildcard stood in the subject slot: the rule applies to every
    /// current identity.
    pub subject_all: bool,
    /// The allowed-command entries the rule grants.
    pub allowed_cmds: Vec<AllowedCmd>,
}

/// The mathematical value of a [`Rule`].
pub struct RuleV {
    pub subject_uids: Seq<u32>,
    pub subject_gids: Seq<u32>,
    pub subject_all: bool,
    pub allowed_cmds: Seq<AllowedCmdV>,
}

impl View for Rule {
    type V = RuleV;

    open spec fn view(&self) -> RuleV {
        RuleV {
            subject_uids: self.subject_uids@,
            subject_gids: self.subject_gids@,
            subject_all: self.subject_all,
            allowed_cmds: self.allowed_cmds.deep_view(),
        }
    }
}

impl DeepView for Rule {
    type V = RuleV;

    open spec fn deep_view(&self) -> RuleV {
        self.view()
    }
}

/// The rule applies to the current identity: its uid is among the subject
/// uids, or its primary or any secondary gid is among the subject gids, or
/// the subject slot held the wildcard.
pub open spec fn spec_subject_relevant(r: RuleV, cur: PermissionV) -> bool {
    r.subject_all || r.subject_uids.contains(cur.uid) || r.subject_gids.contains(cur.primary_gid)
        || exists|g: u32| cur.secondary_gids.contains(g) && r.subject_gids.contains(g)
}

/// The entry covers the requested identity: the same shape of test as
/// subject relevance, against the run-as sets and wildcard flags.
pub open spec fn spec_target_relevant(c: AllowedCmdV, req: PermissionV) -> bool {
    c.target_all_users || c.target_all_groups || c.target_uids.contains(req.uid)
        || c.target_gids.contains(req.primary_gid) || exists|g: u32|
        req.secondary_gids.contains(g) && c.target_gids.contains(g)
}

/// The entry covers the target program: its path is among the entry's
/// command paths, or the command slot held the wildcard.
pub open spec fn spec_command_matches(c: AllowedCmdV, exe: ExecutableV) -> bool {
    c.allow_all_commands || c.command_paths.contains(exe.path)
}

/// The rule grants the request: it applies to the current identity, and some
/// allowed-command entry covers both the requested identity and the target
/// program. Both conjuncts are mandatory.
pub open spec fn spec_rule_evaluate(
    r: RuleV,
    cur: PermissionV,
    req: PermissionV,
    exe: ExecutableV,
) -> bool {
    spec_subject_relevant(r, cur) && exists|j: int|
        0 <= j < r.allowed_cmds.len() && spec_target_relevant(#[trigger] r.allowed_cmds[j], req)
            && spec_command_matches(r.allowed_cmds[j], exe)
}

/// The whole decision: a logical OR across the rules, so any single matching
/// rule grants access, and no rule matching — in particular an empty rule
/// set — denies it.
pub open spec fn spec_evaluate(
    rules: Seq<RuleV>,
    cur: PermissionV,
    req: PermissionV,
    exe: ExecutableV,
) -> bool {
    exists|i: int| 0 <= i < rules.len() && spec_rule_evaluate(#[trigger] rules[i], cur, req, exe)
}

impl AllowedCmd {
    /// An empty entry: nothing matches it.
    pub fn new() -> (r: AllowedCmd)
        ensures
            r@.target_uids =~= Seq::<u32>::empty(),
            r@.target_gids =~= Seq::<u32>::empty(),
            !r@.target_all_users,
            !r@.target_all_groups,
            r.command_paths@ =~= Seq::<Vec<u8>>::empty(),
            r@.command_paths =~= Seq::<Seq<u8>>::empty(),
            !r@.allow_all_commands,
            r@.options =~= Seq::<RuleOption>::empty(),
    {
        let r = AllowedCmd {
            target_uids: Vec::new(),
            target_gids: Vec::new(),
            target_all_users: false,
            target_all_groups: false,
            command_paths: Vec::new(),
            allow_all_commands: false,
            options: Vec::new(),
        };
        proof {
            assert(r.command_paths@ =~= Seq::<Vec<u8>>::empty());
            assert(r@.command_paths =~~= Seq::<Seq<u8>>::empty());
        }
        r
    }

    /// Decides whether the entry covers the requested identity.
    pub fn is_relevant(&self, req_perm: &Permission) -> (r: bool)
        ensures
            r == spec_target_relevant(self@, req_perm@),
    {
        self.target_all_users || self.target_all_groups || contains_id(
            &self.target_uids,
            req_perm.uid,
        ) || contains_id(&self.target_gids, req_perm.primary_gid) || ids_intersect(
            &req_perm.secondary_gids,
            &self.target_gids,
        )
    }

    /// Decides whether the entry covers the target program.
    pub fn matches_command(&self, exe: &Executable) -> (r: bool)
        ensures
            r == spec_command_matches(self@, exe@),
    {
        self.allow_all_commands || contains_bytes(&self.command_paths, &exe.path)
    }
}

impl Rule {
    /// An empty rule: it applies to nobody and grants nothing.
    pub fn new() -> (r: Rule)
        ensures
            r@.subject_uids =~= Seq::<u32>::empty(),
            r@.subject_gids =~= Seq::<u32>::empty(),
            !r@.subject_all,
            r@.allowed_cmds =~= Seq::<AllowedCmdV>::empty(),
    {
        let r = Rule {
            subject_uids: Vec::new(),
            subject_gids: Vec::new(),
            subject_all: false,
            allowed_cmds: Vec::new(),
        };
        proof {
            assert(r@.allowed_cmds =~= Seq::<AllowedCmdV>::empty());
        }
        r
    }

    /// Decides whether the rule applies to the current identity.
    pub fn is_relevant(&self, curr_perm: &Permission) -> (r: bool)
        ensures
            r == spec_subject_relevant(self@, curr_perm@),
    {
        self.subject_all || contains_id(&self.subject_uids, curr_perm.uid) || contains_id(
            &self.subject_gids,
            curr_perm.primary_gid,
        ) || ids_intersect(&curr_perm.secondary_gids, &self.subject_gids)
    }

    /// Decides whether the rule grants the request.
    pub fn evaluate(&self, cur: &Permission, req: &Permission, exe: &Executable) -> (r: bool)
        ensures
            r == spec_rule_evaluate(self@, cur@, req@, exe@),
    {
        if !self.is_relevant(cur) {
            return false;
        }
        let mut j: usize = 0;
        while j < self.allowed_cmds.len()
            invariant
                0 <= j <= self.allowed_cmds@.len(),
                spec_subject_relevant(self@, cur@),
                forall|k: int|
                    0 <= k < j ==> !(spec_target_relevant(#[trigger] self@.allowed_cmds[k], req@)
                        && spec_command_matches(self@.allowed_cmds[k], exe@)),
            decreases self.allowed_cmds@.len() - j,
        {
            proof {
                assert(self@.allowed_cmds[j as int] == self.allowed_cmds@[j as int]@);
            }
            if self.allowed_cmds[j].is_relevant(req) && self.allowed_cmds[j].matches_command(exe) {
                return true;
            }
            j = j + 1;
        }
        false
    }
}

/// Evaluates the whole rule set for a request: the accumulator starts in the
/// deny state and is only ever overwritten by an explicit match, so an empty
/// rule set, or one with no match, yields deny.
pub fn evaluate(cur: &Permission, req: &Permission, exe: &Executable, verifiers: &Vec<Rule>) -> (r:
    bool)
    ensures
        r == spec_evaluate(verifiers.deep_view(), cur@, req@, exe@),
{
    let mut allowed = false;
    let mut i: usize = 0;
    while i < verifiers.len()
        invariant
            0 <= i <= verifiers@.len(),
            allowed == spec_evaluate(verifiers.deep_view().take(i as int), cur@, req@, exe@),
        decreases verifiers@.len() - i,
    {
        proof {
            assert(verifiers.deep_view()[i as int] == verifiers@[i as int]@);
        }
        let verdict = verifiers[i].evaluate(cur, req, exe);
        proof {
            let rs = verifiers.deep_view();
            let t = rs.take(i as int + 1);
            assert(t.drop_last() =~= rs.take(i as int));
            assert(t.last() == rs[i as int]);
            if verdict {
                assert(spec_rule_evaluate(t[i as int], cur@, req@, exe@));
                assert(spec_evaluate(t, cur@, req@, exe@));
            } else if allowed {
                let w = choose|k: int|
                    0 <= k < rs.take(i as int).len() && spec_rule_evaluate(
                        #[trigger] rs.take(i as int)[k],
                        cur@,
                        req@,
                        exe@,
                    );
                assert(t[w] == rs.take(i as int)[w]);
                assert(spec_evaluate(t, cur@, req@, exe@));
            } else {
                assert(forall|k: int|
                    0 <= k < t.len() ==> !spec_rule_evaluate(#[trigger] t[k], cur@, req@, exe@))
                    by {
                    assert(forall|k: int|
                        0 <= k < i as int ==> t[k] == #[trigger] rs.take(i as int)[k]);
                };
            }
        }
        allowed = allowed || verdict;
        i = i + 1;
    }
    proof {
        assert(verifiers.deep_view().take(i as int) =~= verifiers.deep_view());
    }
    allowed
}

/// Authorization characterization: the decision is true exactly when some
/// rule's subject set matches the current identity and some allowed-command
/// entry of that rule has a target set matching the requested identity and a
/// command set matching the target, wildcards counting at each level.
pub proof fn lemma_evaluate_characterization(
    rules: Seq<RuleV>,
    cur: PermissionV,
    req: PermissionV,
    exe: ExecutableV,
)
    ensures
        spec_evaluate(rules, cur, req, exe) <==> exists|i: int, j: int|
            0 <= i < rules.len() && 0 <= j < rules[i].allowed_cmds.len() && spec_subject_relevant(
                #[trigger] rules[i],
                cur,
            ) && spec_target_relevant(#[trigger] rules[i].allowed_cmds[j], req)
                && spec_command_matches(rules[i].allowed_cmds[j], exe),
{
    if spec_evaluate(rules, cur, req, exe) {
        let i = choose|i: int|
            0 <= i < rules.len() && spec_rule_evaluate(#[trigger] rules[i], cur, req, exe);
        let j = choose|j: int|
            0 <= j < rules[i].allowed_cmds.len() && spec_target_relevant(
                #[trigger] rules[i].allowed_cmds[j],
                req,
            ) && spec_command_matches(rules[i].allowed_cmds[j], exe);
        assert(0 <= i < rules.len() && 0 <= j < rules[i].allowed_cmds.len()
            && spec_subject_relevant(rules[i], cur) && spec_target_relevant(
            rules[i].allowed_cmds[j],
            req,
        ) && spec_command_matches(rules[i].allowed_cmds[j], exe));
    }
}

/// Fail-safe default: against the empty rule set, every request is denied.
pub proof fn lemma_default_deny(cur: PermissionV, req: PermissionV, exe: ExecutableV)
    ensures
        !spec_evaluate(Seq::empty(), cur, req, exe),
{
}

/// Wildcard absorption in the subject slot: a rule with `subject_all` set
/// applies to every current identity.
pub proof fn lemma_wildcard_subject(r: RuleV, cur: PermissionV)
    requires
        r.subject_all,
    ensures
        spec_subject_relevant(r, cur),
{
}

/// Wildcard absorption in the command slot: an entry with
/// `allow_all_commands` set covers every target program.
pub proof fn lemma_wildcard_command(c: AllowedCmdV, exe: ExecutableV)
    requires
        c.allow_all_commands,
    ensures
        spec_command_matches(c, exe),
{
}

} // verus!
