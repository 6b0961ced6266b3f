//! Resolution of the policy source into rules ready for evaluation: alias
//! expansion, wildcard lowering, and name-to-id resolution against a name
//! table, with unresolvable names dropped so they can never match.

use vstd::prelude::*;

use crate::rules::{AllowedCmd, AllowedCmdV, Rule, RuleV};
use crate::sudoers::{
    is_wildcard_name, spec_expand, wildcard, AliasDef, CmdSpec, Command, NameTable,
    PolicyFactoryError, Sudoers, User, UserSpec,
};

verus! {

use vstd::utf8::encode_utf8;

/// The uids that the user-tagged, non-wildcard names of `l` resolve to, in
/// order; names the table does not know are dropped.
pub open spec fn spec_resolved_uids(l: Seq<User>, names: NameTable) -> Seq<u32>
    decreases l.len(),
{
    if l.len() == 0 {
        Seq::empty()
    } else {
        let rest = spec_resolved_uids(l.drop_last(), names);
        match l.last() {
            User::Username(n) => if n@ == wildcard() {
                rest
            } else {
                match names.spec_user_id(n@) {
                    Option::Some(id) => rest.push(id),
                    Option::None => rest,
                }
            },
            _ => rest,
        }
    }
}

/// The gids that the group-tagged, non-wildcard names of `l` resolve to, in
/// order; names the table does not know are dropped.
pub open spec fn spec_resolved_gids(l: Seq<User>, names: NameTable) -> Seq<u32>
    decreases l.len(),
{
    if l.len() == 0 {
        Seq::empty()
    } else {
        let rest = spec_resolved_gids(l.drop_last(), names);
        match l.last() {
            User::Usergroup(n) => if n@ == wildcard() {
                rest
            } else {
                match names.spec_group_id(n@) {
                    Option::Some(id) => rest.push(id),
                    Option::None => rest,
                }
            },
            _ => rest,
        }
    }
}

/// The wildcard stands among the user-tagged names of `l`.
pub open spec fn spec_user_wildcard(l: Seq<User>) -> bool
    decreases l.len(),
{
    if l.len() == 0 {
        false
    } else {
        spec_user_wildcard(l.drop_last()) || match l.last() {
            User::Username(n) => n@ == wildcard(),
            _ => false,
        }
    }
}

/// The wildcard stands among the group-tagged names of `l`.
pub open spec fn spec_group_wildcard(l: Seq<User>) -> bool
    decreases l.len(),
{
    if l.len() == 0 {
        false
    } else {
        spec_group_wildcard(l.drop_last()) || match l.last() {
            User::Usergroup(n) => n@ == wildcard(),
            _ => false,
        }
    }
}

/// The byte strings of the non-wildcard command paths of `cs`, in order.
pub open spec fn spec_command_paths(cs: Seq<Command>) -> Seq<Seq<u8>>
    decreases cs.len(),
{
    if cs.len() == 0 {
        Seq::empty()
    } else {
        let rest = spec_command_paths(cs.drop_last());
        match cs.last() {
            Command::CmdPath(p) => if p@ == wildcard() {
                rest
            } else {
                rest.push(encode_utf8(p@))
            },
        }
    }
}

/// The wildcard stands among the command paths of `cs`.
pub open spec fn spec_command_wildcard(cs: Seq<Command>) -> bool
    decreases cs.len(),
{
    if cs.len() == 0 {
        false
    } else {
        spec_command_wildcard(cs.drop_last()) || match cs.last() {
            Command::CmdPath(p) => p@ == wildcard(),
        }
    }
}

/// The resolved allowed-command entry a command-spec entry denotes against a
/// name table. Only user-tagged names count in the run-as user slot and only
/// group-tagged names in the run-as group slot; other tags there are
/// tolerated and dropped.
pub open spec fn spec_allowed_cmd_of(c: CmdSpec, names: NameTable) -> AllowedCmdV {
    AllowedCmdV {
        target_uids: spec_resolved_uids(c.run_as_users@, names),
        target_gids: spec_resolved_gids(c.run_as_groups@, names),
        target_all_users: spec_user_wildcard(c.run_as_users@),
        target_all_groups: spec_group_wildcard(c.run_as_groups@),
        command_paths: spec_command_paths(c.commands@),
        allow_all_commands: spec_command_wildcard(c.commands@),
        options: c.options@,
    }
}

/// The rule a rule entry denotes: its subject list is alias-expanded, then
/// resolved; defined exactly when expansion succeeds.
pub open spec fn spec_rule_of(us: UserSpec, aliases: Seq<AliasDef>, names: NameTable) -> Option<
    RuleV,
> {
    match spec_expand(aliases, us.user_list@) {
        Option::None => Option::None,
        Option::Some(ex) => Option::Some(
            RuleV {
                subject_uids: spec_resolved_uids(ex, names),
                subject_gids: spec_resolved_gids(ex, names),
                subject_all: spec_user_wildcard(ex) || spec_group_wildcard(ex),
                allowed_cmds: us.cmd_specs@.map(|i: int, c: CmdSpec| spec_allowed_cmd_of(c, names)),
            },
        ),
    }
}

/// The rules a whole policy source denotes, in source order; defined exactly
/// when every rule entry expands.
pub open spec fn spec_rules_of(
    specs: Seq<UserSpec>,
    aliases: Seq<AliasDef>,
    names: NameTable,
) -> Option<Seq<RuleV>>
    decreases specs.len(),
{
    if specs.len() == 0 {
        Option::Some(Seq::empty())
    } else {
        match spec_rules_of(specs.drop_last(), aliases, names) {
            Option::None => Option::None,
            Option::Some(rest) => match spec_rule_of(specs.last(), aliases, names) {
                Option::None => Option::None,
                Option::Some(r) => Option::Some(rest.push(r)),
            },
        }
    }
}

/// Resolves one command-spec entry against the name table.
fn allowed_cmd_from(c: &CmdSpec, names: &NameTable) -> (r: AllowedCmd)
    ensures
        r@ == spec_allowed_cmd_of(*c, *names),
{
    let mut ac = AllowedCmd::new();
    let mut i: usize = 0;
    while i < c.run_as_users.len()
        invariant
            0 <= i <= c.run_as_users@.len(),
            ac.target_uids@ == spec_resolved_uids(c.run_as_users@.take(i as int), *names),
            ac.target_all_users == spec_user_wildcard(c.run_as_users@.take(i as int)),
            ac.target_gids@ =~= Seq::<u32>::empty(),
            !ac.target_all_groups,
            ac.command_paths@ =~= Seq::<Vec<u8>>::empty(),
            !ac.allow_all_commands,
            ac.options@ =~= Seq::<crate::sudoers::RuleOption>::empty(),
        decreases c.run_as_users@.len() - i,
    {
        match &c.run_as_users[i] {
            User::Username(n) => {
                if is_wildcard_name(n) {
                    ac.target_all_users = true;
                } else {
                    match names.user_id(n) {
                        Some(id) => {
                            ac.target_uids.push(id);
                        },
                        None => {},
                    }
                }
            },
            _ => {},
        }
        i = i + 1;
        proof {
            let t = c.run_as_users@.take(i as int);
            assert(t.drop_last() =~= c.run_as_users@.take(i as int - 1));
            assert(t.last() == c.run_as_users@[i as int - 1]);
        }
    }
    proof {
        assert(c.run_as_users@.take(i as int) =~= c.run_as_users@);
    }
    let mut j: usize = 0;
    while j < c.run_as_groups.len()
        invariant
            0 <= j <= c.run_as_groups@.len(),
            ac.target_uids@ == spec_resolved_uids(c.run_as_users@, *names),
            ac.target_all_users == spec_user_wildcard(c.run_as_users@),
            ac.target_gids@ == spec_resolved_gids(c.run_as_groups@.take(j as int), *names),
            ac.target_all_groups == spec_group_wildcard(c.run_as_groups@.take(j as int)),
            ac.command_paths@ =~= Seq::<Vec<u8>>::empty(),
            !ac.allow_all_commands,
            ac.options@ =~= Seq::<crate::sudoers::RuleOption>::empty(),
        decreases c.run_as_groups@.len() - j,
    {
        match &c.run_as_groups[j] {
            User::Usergroup(n) => {
                if is_wildcard_name(n) {
                    ac.target_all_groups = true;
                } else {
                    match names.group_id(n) {
                        Some(id) => {
                            ac.target_gids.push(id);
                        },
                        None => {},
                    }
                }
            },
            _ => {},
        }
        j = j + 1;
        proof {
            let t = c.run_as_groups@.take(j as int);
            assert(t.drop_last() =~= c.run_as_groups@.take(j as int - 1));
            assert(t.last() == c.run_as_groups@[j as int - 1]);
        }
    }
    proof {
        assert(c.run_as_groups@.take(j as int) =~= c.run_as_groups@);
    }
    let mut k: usize = 0;
    while k < c.commands.len()
        invariant
            0 <= k <= c.commands@.len(),
            ac.target_uids@ == spec_resolved_uids(c.run_as_users@, *names),
            ac.target_all_users == spec_user_wildcard(c.run_as_users@),
            ac.target_gids@ == spec_resolved_gids(c.run_as_groups@, *names),
            ac.target_all_groups == spec_group_wildcard(c.run_as_groups@),
            ac.command_paths.deep_view() == spec_command_paths(c.commands@.take(k as int)),
            ac.allow_all_commands == spec_command_wildcard(c.commands@.take(k as int)),
            ac.options@ =~= Seq::<crate::sudoers::RuleOption>::empty(),
        decreases c.commands@.len() - k,
    {
        let ghost prev = ac.command_paths.deep_view();
        match &c.commands[k] {
            Command::CmdPath(p) => {
                if is_wildcard_name(p) {
                    ac.allow_all_commands = true;
                } else {
                    ac.command_paths.push(p.as_str().as_bytes_vec());
                    proof {
                        assert(ac.command_paths.deep_view() =~~= prev.push(
                            encode_utf8(c.commands@[k as int]->CmdPath_0@),
                        ));
                    }
                }
            },
        }
        k = k + 1;
        proof {
            let t = c.commands@.take(k as int);
            assert(t.drop_last() =~= c.commands@.take(k as int - 1));
            assert(t.last() == c.commands@[k as int - 1]);
        }
    }
    proof {
        assert(c.commands@.take(k as int) =~= c.commands@);
    }
    let mut m: usize = 0;
    while m < c.options.len()
        invariant
            0 <= m <= c.options@.len(),
            ac.target_uids@ == spec_resolved_uids(c.run_as_users@, *names),
            ac.target_all_users == spec_user_wildcard(c.run_as_users@),
            ac.target_gids@ == spec_resolved_gids(c.run_as_groups@, *names),
            ac.target_all_groups == spec_group_wildcard(c.run_as_groups@),
            ac.command_paths.deep_view() == spec_command_paths(c.commands@),
            ac.allow_all_commands == spec_command_wildcard(c.commands@),
            ac.options@ == c.options@.take(m as int),
        decreases c.options@.len() - m,
    {
        ac.options.push(c.options[m]);
        m = m + 1;
        proof {
            assert(c.options@.take(m as int) =~= c.options@.take(m as int - 1).push(
                c.options@[m as int - 1],
            ));
        }
    }
    proof {
        assert(c.options@.take(m as int) =~= c.options@);
        assert(ac@ == spec_allowed_cmd_of(*c, *names));
    }
    ac
}

impl Rule {
    /// Resolves one rule entry: expands its subject list against the alias
    /// table, lowers wildcards to flags, resolves names to ids through the
    /// name table, and drops names the table does not know, so that a stale
    /// name can never match but never aborts the load.
    pub fn from_userspec(
        userspec: &UserSpec,
        useraliases: &Vec<AliasDef>,
        names: &NameTable,
    ) -> (r: Result<Rule, PolicyFactoryError>)
        ensures
            match r {
                Ok(rule) => spec_rule_of(*userspec, useraliases@, *names) == Some(rule@),
                Err(e) => spec_rule_of(*userspec, useraliases@, *names) is None && e
                    is PolicyMalformed,
            },
    {
        let ex = match crate::sudoers::expand_principals(&userspec.user_list, useraliases) {
            Err(e) => {
                return Err(e);
            },
            Ok(ex) => ex,
        };
        let mut rule = Rule::new();
        let mut i: usize = 0;
        while i < ex.len()
            invariant
                0 <= i <= ex@.len(),
                rule.subject_uids@ == spec_resolved_uids(ex@.take(i as int), *names),
                rule.subject_gids@ == spec_resolved_gids(ex@.take(i as int), *names),
                rule.subject_all == (spec_user_wildcard(ex@.take(i as int)) || spec_group_wildcard(
                    ex@.take(i as int),
                )),
                rule.allowed_cmds@ =~= Seq::<AllowedCmd>::empty(),
            decreases ex@.len() - i,
        {
            match &ex[i] {
                User::Username(n) => {
                    if is_wildcard_name(n) {
                        rule.subject_all = true;
                    } else {
                        match names.user_id(n) {
                            Some(id) => {
                                rule.subject_uids.push(id);
                            },
                            None => {},
                        }
                    }
                },
                User::Usergroup(n) => {
                    if is_wildcard_name(n) {
                        rule.subject_all = true;
                    } else {
                        match names.group_id(n) {
                            Some(id) => {
                                rule.subject_gids.push(id);
                            },
                            None => {},
                        }
                    }
                },
                User::Useralias(_) => {},
            }
            i = i + 1;
            proof {
                let t = ex@.take(i as int);
                assert(t.drop_last() =~= ex@.take(i as int - 1));
                assert(t.last() == ex@[i as int - 1]);
            }
        }
        proof {
            assert(ex@.take(i as int) =~= ex@);
        }
        let ghost cmd_of = |i: int, c: CmdSpec| spec_allowed_cmd_of(c, *names);
        let mut k: usize = 0;
        while k < userspec.cmd_specs.len()
            invariant
                0 <= k <= userspec.cmd_specs@.len(),
                rule.subject_uids@ == spec_resolved_uids(ex@, *names),
                rule.subject_gids@ == spec_resolved_gids(ex@, *names),
                rule.subject_all == (spec_user_wildcard(ex@) || spec_group_wildcard(ex@)),
                rule.allowed_cmds.deep_view() == userspec.cmd_specs@.take(k as int).map(cmd_of),
                cmd_of == (|i: int, c: CmdSpec| spec_allowed_cmd_of(c, *names)),
            decreases userspec.cmd_specs@.len() - k,
        {
            let ghost prev = rule.allowed_cmds.deep_view();
            let ac = allowed_cmd_from(&userspec.cmd_specs[k], names);
            rule.allowed_cmds.push(ac);
            k = k + 1;
            proof {
                assert(rule.allowed_cmds.deep_view() =~~= prev.push(ac@));
                assert(userspec.cmd_specs@.take(k as int).map(cmd_of) =~~= prev.push(ac@));
            }
        }
        proof {
            assert(userspec.cmd_specs@.take(k as int) =~= userspec.cmd_specs@);
            assert(rule@ == spec_rule_of(*userspec, useraliases@, *names).unwrap());
        }
        Ok(rule)
    }
}

/// The rules of a whole policy source, resolved and ready for evaluation, in
/// source order.
#[derive(Debug)]
pub struct ParsedSudoers {
    /// The resolved rules, in source order.
    pub rules: Vec<Rule>,
}

impl Sudoers {
    /// Resolves every rule entry of the source against the name table. Fails
    /// exactly when some entry's subject list cannot be alias-expanded; an
    /// unresolvable principal name is no failure.
    pub fn retrieve_ids(&self, names: &NameTable) -> (r: Result<ParsedSudoers, PolicyFactoryError>)
        ensures
            match r {
                Ok(ps) => spec_rules_of(self.user_specs@, self.user_aliases@, *names) == Some(
                    ps.rules.deep_view(),
                ),
                Err(e) => spec_rules_of(self.user_specs@, self.user_aliases@, *names) is None && e
                    is PolicyMalformed,
            },
    {
        let mut rules: Vec<Rule> = Vec::new();
        let mut i: usize = 0;
        proof {
            assert(rules.deep_view() =~= Seq::<RuleV>::empty());
        }
        while i < self.user_specs.len()
            invariant
                0 <= i <= self.user_specs@.len(),
                spec_rules_of(self.user_specs@.take(i as int), self.user_aliases@, *names) == Some(
                    rules.deep_view(),
                ),
            decreases self.user_specs@.len() - i,
        {
            let ghost prev = rules.deep_view();
            match Rule::from_userspec(&self.user_specs[i], &self.user_aliases, names) {
                Err(e) => {
                    proof {
                        lemma_rules_of_fail(self.user_specs@, self.user_aliases@, *names, i as int);
                    }
                    return Err(e);
                },
                Ok(rule) => {
                    rules.push(rule);
                },
            }
            i = i + 1;
            proof {
                let t = self.user_specs@.take(i as int);
                assert(t.drop_last() =~= self.user_specs@.take(i as int - 1));
                assert(t.last() == self.user_specs@[i as int - 1]);
                assert(rules.deep_view() =~~= prev.push(
                    spec_rule_of(self.user_specs@[i as int - 1], self.user_aliases@,
                    *names).unwrap(),
                ));
            }
        }
        proof {
            assert(self.user_specs@.take(i as int) =~= self.user_specs@);
        }
        Ok(ParsedSudoers { rules })
    }
}

/// If one rule entry cannot be resolved, the whole source cannot.
proof fn lemma_rules_of_fail(specs: Seq<UserSpec>, aliases: Seq<AliasDef>, names: NameTable, k: int)
    requires
        0 <= k < specs.len(),
        spec_rule_of(specs[k], aliases, names) is None,
    ensures
        spec_rules_of(specs, aliases, names) is None,
    decreases specs.len(),
{
    if k == specs.len() - 1 {
    } else {
        assert(specs.drop_last()[k] == specs[k]);
        lemma_rules_of_fail(specs.drop_last(), aliases, names, k);
    }
}

/// Builds the verifier list for a parsed policy source: one [`Rule`] per
/// rule entry, in source order.
pub fn from_sudoers(sudoers: &Sudoers, names: &NameTable) -> (r: Result<
    Vec<Rule>,
    PolicyFactoryError,
>)
    ensures
        match r {
            Ok(rules) => spec_rules_of(sudoers.user_specs@, sudoers.user_aliases@, *names) == Some(
                rules.deep_view(),
            ),
            Err(e) => spec_rules_of(sudoers.user_specs@, sudoers.user_aliases@, *names) is None
                && e is PolicyMalformed,
        },
{
    match sudoers.retrieve_ids(names) {
        Ok(ps) => Ok(ps.rules),
        Err(e) => Err(e),
    }
}

/// A principal reference whose name neither is the wildcard nor stands in
/// the name table: it can contribute nothing to a resolved rule.
pub open spec fn spec_unresolvable(u: User, names: NameTable) -> bool {
    match u {
        User::Username(n) => n@ != wildcard() && names.spec_user_id(n@) is None,
        User::Usergroup(n) => n@ != wildcard() && names.spec_group_id(n@) is None,
        User::Useralias(_) => false,
    }
}

/// Unknown-name tolerance: a principal entry whose name the table cannot
/// resolve behaves as if it were absent — the resolved id sets and wildcard
/// flags are those of the list without it, so it never grants access; and
/// since resolution never fails, it never aborts the load either.
pub proof fn lemma_unresolved_name_absent(l: Seq<User>, names: NameTable, i: int)
    requires
        0 <= i < l.len(),
        spec_unresolvable(l[i], names),
    ensures
        spec_resolved_uids(l, names) == spec_resolved_uids(l.remove(i), names),
        spec_resolved_gids(l, names) == spec_resolved_gids(l.remove(i), names),
        spec_user_wildcard(l) == spec_user_wildcard(l.remove(i)),
        spec_group_wildcard(l) == spec_group_wildcard(l.remove(i)),
    decreases l.len(),
{
    if i == l.len() - 1 {
        assert(l.remove(i) =~= l.drop_last());
    } else {
        assert(l.drop_last()[i] == l[i]);
        lemma_unresolved_name_absent(l.drop_last(), names, i);
        assert(l.remove(i).drop_last() =~= l.drop_last().remove(i));
        assert(l.remove(i).last() == l.last());
    }
}

/// Unknown-name tolerance at the rule level: two rule entries that differ
/// only in one unresolvable subject entry resolve to the same rule.
pub proof fn lemma_unresolved_subject_tolerated(
    us1: UserSpec,
    us2: UserSpec,
    aliases: Seq<AliasDef>,
    names: NameTable,
    i: int,
)
    requires
        crate::sudoers::spec_concrete(us1.user_list@),
        0 <= i < us1.user_list@.len(),
        spec_unresolvable(us1.user_list@[i], names),
        us2.user_list@ == us1.user_list@.remove(i),
        us2.cmd_specs@ == us1.cmd_specs@,
    ensures
        spec_rule_of(us1, aliases, names) == spec_rule_of(us2, aliases, names),
{
    let l1 = us1.user_list@;
    let l2 = us2.user_list@;
    assert(forall|k: int| 0 <= k < l2.len() ==> !(#[trigger] l2[k] is Useralias)) by {
        assert(forall|k: int|
            0 <= k < l2.len() ==> l2[k] == l1[k] || l2[k] == #[trigger] l1[k + 1]);
    }
    crate::sudoers::lemma_expand_concrete_identity(aliases, l1);
    crate::sudoers::lemma_expand_concrete_identity(aliases, l2);
    lemma_unresolved_name_absent(l1, names, i);
}

/// Fills a name table for a policy source by asking the system databases
/// about every user and group name that occurs in it: subject lists, alias
/// members, and run-as lists. Which names resolve depends on the machine, so
/// the resolved rules are exact with respect to whatever table this hands
/// back.
pub fn resolve_names(sudoers: &Sudoers) -> NameTable {
    let mut names = NameTable::new();
    let mut i: usize = 0;
    while i < sudoers.user_aliases.len()
        decreases sudoers.user_aliases@.len() - i,
    {
        resolve_list(&sudoers.user_aliases[i].members, &mut names);
        i = i + 1;
    }
    let mut j: usize = 0;
    while j < sudoers.user_specs.len()
        decreases sudoers.user_specs@.len() - j,
    {
        let us = &sudoers.user_specs[j];
        resolve_list(&us.user_list, &mut names);
        let mut k: usize = 0;
        while k < us.cmd_specs.len()
            decreases us.cmd_specs@.len() - k,
        {
            resolve_list(&us.cmd_specs[k].run_as_users, &mut names);
            resolve_list(&us.cmd_specs[k].run_as_groups, &mut names);
            k = k + 1;
        }
        j = j + 1;
    }
    names
}

/// Resolves every name of one principal list into the table, skipping the
/// wildcard, alias references, and names already present.
fn resolve_list(list: &Vec<User>, names: &mut NameTable) {
    let mut i: usize = 0;
    while i < list.len()
        decreases list@.len() - i,
    {
        match &list[i] {
            User::Username(n) => {
                if !is_wildcard_name(n) && names.user_id(n).is_none() {
                    match crate::sudoers::get_uid_from_username(n) {
                        Some(id) => {
                            names.users.push((n.clone(), id));
                        },
                        None => {},
                    }
                }
            },
            User::Usergroup(n) => {
                if !is_wildcard_name(n) && names.group_id(n).is_none() {
                    match crate::sudoers::get_gid_from_groupname(n) {
                        Some(id) => {
                            names.groups.push((n.clone(), id));
                        },
                        None => {},
                    }
                }
            },
            User::Useralias(_) => {},
        }
        i = i + 1;
    }
}

} // verus!
