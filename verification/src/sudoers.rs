//! The declarative policy source: principal references tagged by kind, an
//! alias table, rule entries, the name table that maps principal names to OS
//! ids, and single-level alias expansion.

use vstd::prelude::*;

verus! {

/// A principal reference as it stands in the policy source.
#[derive(Debug, PartialEq, Eq)]
pub enum User {
    /// A user, by name.
    Username(String),
    /// A group, by name.
    Usergroup(String),
    /// An alias, by name, standing for a list of concrete principals.
    Useralias(String),
}

impl Clone for User {
    fn clone(&self) -> (r: Self)
        ensures
            r == *self,
    {
        match self {
            User::Username(n) => User::Username(n.clone()),
            User::Usergroup(n) => User::Usergroup(n.clone()),
            User::Useralias(n) => User::Useralias(n.clone()),
        }
    }
}

/// A host reference as it stands in the policy source. The host list is
/// carried for completeness but not consulted by this core.
#[derive(Debug, PartialEq, Eq)]
pub enum Host {
    /// A host, by name.
    Hostname(String),
}

impl Clone for Host {
    fn clone(&self) -> (r: Self)
        ensures
            r == *self,
    {
        match self {
            Host::Hostname(n) => Host::Hostname(n.clone()),
        }
    }
}

/// An option flag a command-spec entry carries. Options are surfaced for
/// downstream enforcement; the authorization predicate does not evaluate
/// them.
#[derive(Debug, Clone, Copy, PartialEq, Eq, Structural)]
pub enum RuleOption {
    /// Whether the elevated process may keep environment variables.
    Setenv(bool),
    /// Whether the requester must authenticate.
    Authenticate(bool),
}

/// A command reference as it stands in the policy source.
#[derive(Debug, PartialEq, Eq)]
pub enum Command {
    /// The path of a program, or the wildcard token.
    CmdPath(String),
}

impl Clone for Command {
    fn clone(&self) -> (r: Self)
        ensures
            r == *self,
    {
        match self {
            Command::CmdPath(n) => Command::CmdPath(n.clone()),
        }
    }
}

/// One command-spec entry of a rule: who the command may run as, its option
/// set, and which command paths it covers.
#[derive(Debug)]
pub struct CmdSpec {
    /// The users the command may run as.
    pub run_as_users: Vec<User>,
    /// The groups the command may run as.
    pub run_as_groups: Vec<User>,
    /// The options the entry carries.
    pub options: Vec<RuleOption>,
    /// The command paths the entry covers.
    pub commands: Vec<Command>,
}

/// One rule entry of the policy source: a subject principal list, a host
/// list, and the command-spec entries granted to that subject.
#[derive(Debug)]
pub struct UserSpec {
    /// The subject principals the rule grants permission to.
    pub user_list: Vec<User>,
    /// The hosts the rule applies on (unused by this core).
    pub host_list: Vec<Host>,
    /// The command-spec entries the rule grants.
    pub cmd_specs: Vec<CmdSpec>,
}

/// One alias definition: a name and the ordered principal references it
/// stands for.
#[derive(Debug)]
pub struct AliasDef {
    /// The alias name.
    pub name: String,
    /// The principal references the alias expands to.
    pub members: Vec<User>,
}

/// A whole policy source: the alias table and the rule entries, in source
/// order.
#[derive(Debug)]
pub struct Sudoers {
    /// The alias table, resolved eagerly at load time.
    pub user_aliases: Vec<AliasDef>,
    /// The rule entries, in source order.
    pub user_specs: Vec<UserSpec>,
}

/// The wildcard token: the literal `"ALL"` matches everything in its slot.
pub open spec fn wildcard() -> Seq<char> {
    "ALL"@
}

/// Reports whether `name` is the wildcard token.
pub fn is_wildcard_name(name: &String) -> (r: bool)
    ensures
        r == (name@ == wildcard()),
{
    let all: String = "ALL".to_owned();
    name.eq(&all)
}

/// A principal reference that is the wildcard in the user or group slot.
pub open spec fn is_wildcard_ref(u: User) -> bool {
    match u {
        User::Username(n) => n@ == wildcard(),
        User::Usergroup(n) => n@ == wildcard(),
        User::Useralias(_) => false,
    }
}

/// A table mapping principal names to OS ids, filled from the name-lookup
/// collaborator once per load; lookups against it are pure.
#[derive(Debug)]
pub struct NameTable {
    /// Username to uid, first match wins.
    pub users: Vec<(String, u32)>,
    /// Group name to gid, first match wins.
    pub groups: Vec<(String, u32)>,
}

/// The id the association list `entries` gives `name`: the first match wins.
pub open spec fn spec_lookup(entries: Seq<(String, u32)>, name: Seq<char>) -> Option<u32>
    decreases entries.len(),
{
    if entries.len() == 0 {
        Option::None
    } else if entries[0].0@ == name {
        Option::Some(entries[0].1)
    } else {
        spec_lookup(entries.drop_first(), name)
    }
}

fn lookup(entries: &Vec<(String, u32)>, name: &String) -> (r: Option<u32>)
    ensures
        r == spec_lookup(entries@, name@),
{
    proof {
        assert(entries@.skip(0) =~= entries@);
    }
    let mut i: usize = 0;
    while i < entries.len()
        invariant
            0 <= i <= entries@.len(),
            spec_lookup(entries@, name@) == spec_lookup(entries@.skip(i as int), name@),
        decreases entries@.len() - i,
    {
        proof {
            assert(entries@.skip(i as int)[0] == entries@[i as int]);
            assert(entries@.skip(i as int).drop_first() =~= entries@.skip(i as int + 1));
        }
        if entries[i].0.eq(name) {
            return Some(entries[i].1);
        }
        i = i + 1;
    }
    proof {
        assert(entries@.skip(i as int) =~= Seq::<(String, u32)>::empty());
    }
    None
}

impl NameTable {
    /// An empty table.
    pub fn new() -> (r: NameTable)
        ensures
            r.users@ =~= Seq::<(String, u32)>::empty(),
            r.groups@ =~= Seq::<(String, u32)>::empty(),
    {
        NameTable { users: Vec::new(), groups: Vec::new() }
    }

    /// The uid the table gives a username.
    pub open spec fn spec_user_id(&self, name: Seq<char>) -> Option<u32> {
        spec_lookup(self.users@, name)
    }

    /// The gid the table gives a group name.
    pub open spec fn spec_group_id(&self, name: Seq<char>) -> Option<u32> {
        spec_lookup(self.groups@, name)
    }

    /// Looks a username up in the table.
    pub fn user_id(&self, name: &String) -> (r: Option<u32>)
        ensures
            r == self.spec_user_id(name@),
    {
        lookup(&self.users, name)
    }

    /// Looks a group name up in the table.
    pub fn group_id(&self, name: &String) -> (r: Option<u32>)
        ensures
            r == self.spec_group_id(name@),
    {
        lookup(&self.groups, name)
    }
}

/// Relies on users::get_user_by_name: searches the system user database for
/// the name and returns the uid of the entry found, or None when there is
/// none. The outcome depends on the machine's databases, so nothing more is
/// assumed of it.
#[verifier::external_body]
pub(crate) fn get_uid_from_username(username: &String) -> Option<u32> {
    users::get_user_by_name(username.as_str()).map(|u| u.uid())
}

/// Relies on users::get_group_by_name: searches the system group database for
/// the name and returns the gid of the entry found, or None when there is
/// none. The outcome depends on the machine's databases, so nothing more is
/// assumed of it.
#[verifier::external_body]
pub(crate) fn get_gid_from_groupname(groupname: &String) -> Option<u32> {
    users::get_group_by_name(groupname.as_str()).map(|g| g.gid())
}

/// The members the alias table gives `name`, or None when the alias is
/// undefined.
pub open spec fn spec_alias_members(aliases: Seq<AliasDef>, name: Seq<char>) -> Option<Seq<User>>
    decreases aliases.len(),
{
    if aliases.len() == 0 {
        Option::None
    } else if aliases[0].name@ == name {
        Option::Some(aliases[0].members@)
    } else {
        spec_alias_members(aliases.drop_first(), name)
    }
}

/// Looks an alias up in the table; the first definition wins.
pub fn alias_members<'a>(aliases: &'a Vec<AliasDef>, name: &String) -> (r: Option<&'a Vec<User>>)
    ensures
        match r {
            Some(m) => spec_alias_members(aliases@, name@) == Some(m@),
            None => spec_alias_members(aliases@, name@) is None,
        },
{
    proof {
        assert(aliases@.skip(0) =~= aliases@);
    }
    let mut i: usize = 0;
    while i < aliases.len()
        invariant
            0 <= i <= aliases@.len(),
            spec_alias_members(aliases@, name@) == spec_alias_members(
                aliases@.skip(i as int),
                name@,
            ),
        decreases aliases@.len() - i,
    {
        proof {
            assert(aliases@.skip(i as int)[0] == aliases@[i as int]);
            assert(aliases@.skip(i as int).drop_first() =~= aliases@.skip(i as int + 1));
        }
        if aliases[i].name.eq(name) {
            return Some(&aliases[i].members);
        }
        i = i + 1;
    }
    proof {
        assert(aliases@.skip(i as int) =~= Seq::<AliasDef>::empty());
    }
    None
}

/// A principal list with no alias reference left in it.
pub open spec fn spec_concrete(l: Seq<User>) -> bool {
    forall|i: int| 0 <= i < l.len() ==> !(#[trigger] l[i] is Useralias)
}

/// Single-level alias expansion: each alias reference is replaced, in place,
/// by the members its definition lists; an undefined alias, or one whose
/// members refer to another alias, makes the list unexpandable.
pub open spec fn spec_expand(aliases: Seq<AliasDef>, l: Seq<User>) -> Option<Seq<User>>
    decreases l.len(),
{
    if l.len() == 0 {
        Option::Some(Seq::empty())
    } else {
        match spec_expand(aliases, l.drop_last()) {
            Option::None => Option::None,
            Option::Some(rest) => match l.last() {
                User::Useralias(a) => match spec_alias_members(aliases, a@) {
                    Option::None => Option::None,
                    Option::Some(ms) => if spec_concrete(ms) {
                        Option::Some(rest + ms)
                    } else {
                        Option::None
                    },
                },
                u => Option::Some(rest.push(u)),
            },
        }
    }
}

fn is_concrete(l: &Vec<User>) -> (r: bool)
    ensures
        r == spec_concrete(l@),
{
    let mut i: usize = 0;
    while i < l.len()
        invariant
            0 <= i <= l@.len(),
            forall|j: int| 0 <= j < i ==> !(#[trigger] l@[j] is Useralias),
        decreases l@.len() - i,
    {
        if let User::Useralias(_) = &l[i] {
            return false;
        }
        i = i + 1;
    }
    true
}

/// Why a policy source could not be loaded.
#[derive(Debug, PartialEq, Eq)]
pub enum PolicyFactoryError {
    /// The policy source is malformed: it references an undefined alias, or
    /// an alias whose members reference another alias. `content` names the
    /// offending alias.
    PolicyMalformed { content: String },
}

/// Expands every alias reference in `list` against the alias table, keeping
/// the other references in place and in order. Fails exactly when an alias is
/// undefined or refers to another alias.
pub fn expand_principals(list: &Vec<User>, aliases: &Vec<AliasDef>) -> (r: Result<
    Vec<User>,
    PolicyFactoryError,
>)
    ensures
        match r {
            Ok(ex) => spec_expand(aliases@, list@) == Some(ex@),
            Err(PolicyFactoryError::PolicyMalformed { content }) => spec_expand(aliases@, list@)
                is None && exists|k: int|
                0 <= k < list@.len() && #[trigger] list@[k] == User::Useralias(content)
                    && (spec_alias_members(aliases@, content@) is None || !spec_concrete(
                    spec_alias_members(aliases@, content@).unwrap(),
                )),
        },
{
    let mut out: Vec<User> = Vec::new();
    let mut i: usize = 0;
    while i < list.len()
        invariant
            0 <= i <= list@.len(),
            spec_expand(aliases@, list@.take(i as int)) == Some(out@),
        decreases list@.len() - i,
    {
        let ghost prev = out@;
        match &list[i] {
            User::Useralias(a) => {
                match alias_members(aliases, a) {
                    None => {
                        proof {
                            lemma_expand_fail(aliases@, list@, i as int);
                        }
                        return Err(PolicyFactoryError::PolicyMalformed { content: a.clone() });
                    },
                    Some(ms) => {
                        if !is_concrete(ms) {
                            proof {
                                lemma_expand_fail(aliases@, list@, i as int);
                            }
                            return Err(PolicyFactoryError::PolicyMalformed { content: a.clone() });
                        }
                        let mut j: usize = 0;
                        while j < ms.len()
                            invariant
                                0 <= j <= ms@.len(),
                                out@ == prev + ms@.take(j as int),
                            decreases ms@.len() - j,
                        {
                            out.push(ms[j].clone());
                            j = j + 1;
                            proof {
                                assert(prev + ms@.take(j as int) =~= (prev + ms@.take(
                                    j as int - 1,
                                )).push(ms@[j as int - 1]));
                            }
                        }
                        proof {
                            assert(ms@.take(ms@.len() as int) =~= ms@);
                        }
                    },
                }
            },
            u => {
                out.push(u.clone());
            },
        }
        i = i + 1;
        proof {
            let t = list@.take(i as int);
            assert(t.drop_last() =~= list@.take(i as int - 1));
            assert(t.last() == list@[i as int - 1]);
        }
    }
    proof {
        assert(list@.take(i as int) =~= list@);
    }
    Ok(out)
}

/// If entry `k` of the list is an alias that is undefined or not concrete,
/// the whole list is unexpandable.
proof fn lemma_expand_fail(aliases: Seq<AliasDef>, l: Seq<User>, k: int)
    requires
        0 <= k < l.len(),
        l[k] is Useralias,
        ({
            let a = l[k]->Useralias_0;
            spec_alias_members(aliases, a@) is None || !spec_concrete(
                spec_alias_members(aliases, a@).unwrap(),
            )
        }),
    ensures
        spec_expand(aliases, l) is None,
    decreases l.len(),
{
    if k == l.len() - 1 {
    } else {
        assert(l.drop_last()[k] == l[k]);
        lemma_expand_fail(aliases, l.drop_last(), k);
    }
}

/// An expanded principal list holds no alias reference.
proof fn lemma_expand_concrete(aliases: Seq<AliasDef>, l: Seq<User>, ex: Seq<User>)
    requires
        spec_expand(aliases, l) == Some(ex),
    ensures
        spec_concrete(ex),
    decreases l.len(),
{
    if l.len() > 0 {
        let rest = spec_expand(aliases, l.drop_last()).unwrap();
        lemma_expand_concrete(aliases, l.drop_last(), rest);
        match l.last() {
            User::Useralias(a) => {
                let ms = spec_alias_members(aliases, a@).unwrap();
                assert(ex == rest + ms);
                assert forall|i: int| 0 <= i < ex.len() implies !(#[trigger] ex[i]
                    is Useralias) by {
                    if i < rest.len() {
                        assert(ex[i] == rest[i]);
                    } else {
                        assert(ex[i] == ms[i - rest.len()]);
                    }
                }
            },
            u => {
                assert(ex == rest.push(u));
            },
        }
    }
}

/// Expanding a list with no alias reference changes nothing.
pub proof fn lemma_expand_concrete_identity(aliases: Seq<AliasDef>, l: Seq<User>)
    requires
        spec_concrete(l),
    ensures
        spec_expand(aliases, l) == Some(l),
    decreases l.len(),
{
    if l.len() == 0 {
        assert(l =~= Seq::<User>::empty());
    } else {
        assert(forall|i: int|
            0 <= i < l.drop_last().len() ==> #[trigger] l.drop_last()[i] == l[i]);
        lemma_expand_concrete_identity(aliases, l.drop_last());
        assert(!(l.last() is Useralias));
        assert(l.drop_last().push(l.last()) =~= l);
    }
}

/// Alias expansion is idempotent: expanding the result of an expansion
/// against the same table yields that result again, so resolving the same
/// alias twice gives the same principals.
pub proof fn lemma_expansion_idempotent(aliases: Seq<AliasDef>, l: Seq<User>, ex: Seq<User>)
    requires
        spec_expand(aliases, l) == Some(ex),
    ensures
        spec_expand(aliases, ex) == Some(ex),
{
    lemma_expand_concrete(aliases, l, ex);
    lemma_expand_concrete_identity(aliases, ex);
}

} // verus!
