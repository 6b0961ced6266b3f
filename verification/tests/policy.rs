//! Policy model tests: field parsing, resolution, alias handling, and the
//! authorization decision on concrete scenarios.

use sus::executable::{self, Executable, ExecutableFactoryError};
use sus::permission::{self, Permission, PermissionFactoryError};
use sus::resolve::{from_sudoers, ParsedSudoers};
use sus::rules::{evaluate, AllowedCmd, Rule};
use sus::sudoers::{
    expand_principals, AliasDef, CmdSpec, Command, NameTable, PolicyFactoryError, RuleOption,
    Sudoers, User, UserSpec,
};

fn strings(parts: &[&str]) -> Vec<String> {
    parts.iter().map(|s| s.to_string()).collect()
}

fn perm(uid: u32, gid: u32, secondary: &[u32]) -> Permission {
    Permission { uid, primary_gid: gid, secondary_gids: secondary.to_vec() }
}

fn exe(path: &str) -> Executable {
    Executable { path: path.as_bytes().to_vec(), args: vec![path.as_bytes().to_vec()] }
}

fn cmd_entry(all_users: bool, all_cmds: bool, paths: &[&str]) -> AllowedCmd {
    let mut c = AllowedCmd::new();
    c.target_all_users = all_users;
    c.allow_all_commands = all_cmds;
    c.command_paths = paths.iter().map(|p| p.as_bytes().to_vec()).collect();
    c
}

#[test]
fn permission_from_fields() {
    let args = strings(&["kernel", "1000", "100", "4,24,100"]);
    let p = permission::from_iterator(&args, 1, 2, 3).unwrap();
    assert_eq!(p.uid, 1000);
    assert_eq!(p.primary_gid, 100);
    assert_eq!(p.secondary_gids, vec![4, 24, 100]);
}

#[test]
fn permission_single_secondary_gid() {
    let args = strings(&["kernel", "0", "0", "27"]);
    let p = permission::from_iterator(&args, 1, 2, 3).unwrap();
    assert_eq!(p.secondary_gids, vec![27]);
}

#[test]
fn permission_field_errors_in_order() {
    let missing = strings(&["kernel"]);
    assert_eq!(
        permission::from_iterator(&missing, 1, 2, 3),
        Err(PermissionFactoryError::UIDNotFound)
    );

    let bad_uid = strings(&["kernel", "10x0", "100", "4"]);
    assert_eq!(
        permission::from_iterator(&bad_uid, 1, 2, 3),
        Err(PermissionFactoryError::UIDMalformed { content: "10x0".to_string() })
    );

    let no_gid1 = strings(&["kernel", "1000"]);
    assert_eq!(
        permission::from_iterator(&no_gid1, 1, 2, 3),
        Err(PermissionFactoryError::PrimaryGIDNotFound)
    );

    let bad_gid1 = strings(&["kernel", "1000", "-5", "4"]);
    assert_eq!(
        permission::from_iterator(&bad_gid1, 1, 2, 3),
        Err(PermissionFactoryError::PrimaryGIDMalformed { content: "-5".to_string() })
    );

    let no_gid2 = strings(&["kernel", "1000", "100"]);
    assert_eq!(
        permission::from_iterator(&no_gid2, 1, 2, 3),
        Err(PermissionFactoryError::SecondaryGIDNotFound)
    );

    let bad_gid2 = strings(&["kernel", "1000", "100", "4,abc,7"]);
    assert_eq!(
        permission::from_iterator(&bad_gid2, 1, 2, 3),
        Err(PermissionFactoryError::SecondaryGIDMalformed { content: b"abc".to_vec() })
    );

    let empty_segment = strings(&["kernel", "1000", "100", "4,,7"]);
    assert_eq!(
        permission::from_iterator(&empty_segment, 1, 2, 3),
        Err(PermissionFactoryError::SecondaryGIDMalformed { content: Vec::new() })
    );
}

#[test]
fn permission_uid_bounds() {
    let max = strings(&["kernel", "4294967295", "0", "0"]);
    assert_eq!(permission::from_iterator(&max, 1, 2, 3).unwrap().uid, u32::MAX);

    let over = strings(&["kernel", "4294967296", "0", "0"]);
    assert_eq!(
        permission::from_iterator(&over, 1, 2, 3),
        Err(PermissionFactoryError::UIDMalformed { content: "4294967296".to_string() })
    );
}

#[test]
fn executable_from_fields() {
    let args = strings(&["kernel", "1000", "100", "4", "/bin/ls", "ls", "-l"]);
    let e = executable::from_iterator(&args, 4, 5).unwrap();
    assert_eq!(e.path, b"/bin/ls".to_vec());
    assert_eq!(e.args, vec![b"ls".to_vec(), b"-l".to_vec()]);
}

#[test]
fn executable_field_errors() {
    let short = strings(&["kernel"]);
    assert_eq!(
        executable::from_iterator(&short, 4, 5),
        Err(ExecutableFactoryError::PathNotFound)
    );

    let no_args = strings(&["kernel", "1000", "100", "4", "/bin/ls"]);
    assert_eq!(
        executable::from_iterator(&no_args, 4, 5),
        Err(ExecutableFactoryError::ArgNotFound)
    );

    let nul_path = strings(&["kernel", "1000", "100", "4", "/bin\0/ls", "ls"]);
    assert_eq!(
        executable::from_iterator(&nul_path, 4, 5),
        Err(ExecutableFactoryError::PathMalformed { content: "/bin\0/ls".to_string() })
    );

    let nul_arg = strings(&["kernel", "1000", "100", "4", "/bin/ls", "ls", "a\0b"]);
    assert_eq!(
        executable::from_iterator(&nul_arg, 4, 5),
        Err(ExecutableFactoryError::ArgMalformed { position: 1, content: "a\0b".to_string() })
    );
}

#[test]
fn allow_by_uid_and_target_wildcard() {
    // A rule for uid 1000, allowing /bin/ls as any user.
    let mut rule = Rule::new();
    rule.subject_uids = vec![1000];
    rule.allowed_cmds = vec![cmd_entry(true, false, &["/bin/ls"])];

    let current = perm(1000, 100, &[4]);
    let requested = perm(0, 0, &[]);
    assert!(evaluate(&current, &requested, &exe("/bin/ls"), &vec![rule]));
}

#[test]
fn deny_unlisted_command() {
    let mut rule = Rule::new();
    rule.subject_uids = vec![1000];
    rule.allowed_cmds = vec![cmd_entry(true, false, &["/bin/ls"])];

    let current = perm(1000, 100, &[4]);
    let requested = perm(0, 0, &[]);
    assert!(!evaluate(&current, &requested, &exe("/bin/rm"), &vec![rule]));
}

#[test]
fn wildcard_rule_allows_anything() {
    let mut rule = Rule::new();
    rule.subject_all = true;
    rule.allowed_cmds = vec![cmd_entry(true, true, &[])];

    let a = perm(12, 34, &[56]);
    let b = perm(999, 1, &[]);
    assert!(evaluate(&a, &b, &exe("/usr/bin/anything"), &vec![rule]));
}

#[test]
fn wildcard_rule_allows_other_inputs_too() {
    let mut rule = Rule::new();
    rule.subject_all = true;
    rule.allowed_cmds = vec![cmd_entry(true, true, &[])];

    let a = perm(0, 0, &[]);
    let b = perm(7, 8, &[9, 10]);
    assert!(evaluate(&a, &b, &exe("/sbin/other"), &vec![rule]));
}

#[test]
fn empty_rule_set_denies() {
    let current = perm(0, 0, &[0]);
    let requested = perm(0, 0, &[0]);
    assert!(!evaluate(&current, &requested, &exe("/bin/sh"), &Vec::new()));
}

#[test]
fn subject_matches_through_secondary_group() {
    let mut rule = Rule::new();
    rule.subject_gids = vec![27];
    rule.allowed_cmds = vec![cmd_entry(true, true, &[])];

    let current = perm(1000, 100, &[4, 27]);
    let requested = perm(0, 0, &[]);
    assert!(evaluate(&current, &requested, &exe("/bin/sh"), &vec![rule]));

    let outsider = perm(1000, 100, &[4, 24]);
    let mut rule2 = Rule::new();
    rule2.subject_gids = vec![27];
    rule2.allowed_cmds = vec![cmd_entry(true, true, &[])];
    assert!(!evaluate(&outsider, &requested, &exe("/bin/sh"), &vec![rule2]));
}

#[test]
fn both_conjuncts_are_mandatory() {
    // allow_all_commands alone must not bypass the run-as check.
    let mut entry = AllowedCmd::new();
    entry.allow_all_commands = true;
    entry.target_uids = vec![0];
    let mut rule = Rule::new();
    rule.subject_all = true;
    rule.allowed_cmds = vec![entry];

    let current = perm(1000, 100, &[]);
    let as_root = perm(0, 0, &[]);
    let as_other = perm(55, 55, &[]);
    let rules = vec![rule];
    assert!(evaluate(&current, &as_root, &exe("/bin/sh"), &rules));
    assert!(!evaluate(&current, &as_other, &exe("/bin/sh"), &rules));
}

fn admins_sudoers(subject: Vec<User>) -> Sudoers {
    Sudoers {
        user_aliases: vec![AliasDef {
            name: "ADMINS".to_string(),
            members: vec![
                User::Username("alice".to_string()),
                User::Username("bob".to_string()),
            ],
        }],
        user_specs: vec![UserSpec {
            user_list: subject,
            host_list: Vec::new(),
            cmd_specs: vec![CmdSpec {
                run_as_users: vec![User::Username("ALL".to_string())],
                run_as_groups: Vec::new(),
                options: vec![RuleOption::Setenv(true)],
                commands: vec![Command::CmdPath("/bin/ls".to_string())],
            }],
        }],
    }
}

fn alice_bob_table() -> NameTable {
    NameTable {
        users: vec![("alice".to_string(), 1000), ("bob".to_string(), 1001)],
        groups: Vec::new(),
    }
}

#[test]
fn alias_subject_resolves_to_member_uids() {
    let doc = admins_sudoers(vec![User::Useralias("ADMINS".to_string())]);
    let names = alice_bob_table();
    let rules = from_sudoers(&doc, &names).unwrap();
    assert_eq!(rules.len(), 1);
    assert_eq!(rules[0].subject_uids, vec![1000, 1001]);
    assert!(!rules[0].subject_all);

    // current identity is alice: the rule is relevant.
    assert!(rules[0].is_relevant(&perm(1000, 100, &[])));
    // a stranger is not covered.
    assert!(!rules[0].is_relevant(&perm(4242, 100, &[])));
}

#[test]
fn undefined_alias_fails_load() {
    let doc = admins_sudoers(vec![User::Useralias("NOSUCH".to_string())]);
    let names = alice_bob_table();
    assert_eq!(
        from_sudoers(&doc, &names),
        Err(PolicyFactoryError::PolicyMalformed { content: "NOSUCH".to_string() })
    );
}

#[test]
fn alias_referencing_alias_fails_load() {
    let mut doc = admins_sudoers(vec![User::Useralias("NESTED".to_string())]);
    doc.user_aliases.push(AliasDef {
        name: "NESTED".to_string(),
        members: vec![User::Useralias("ADMINS".to_string())],
    });
    let names = alice_bob_table();
    assert_eq!(
        from_sudoers(&doc, &names),
        Err(PolicyFactoryError::PolicyMalformed { content: "NESTED".to_string() })
    );
}

#[test]
fn alias_expansion_is_idempotent() {
    let doc = admins_sudoers(Vec::new());
    let list = vec![
        User::Useralias("ADMINS".to_string()),
        User::Usergroup("wheel".to_string()),
    ];
    let once = expand_principals(&list, &doc.user_aliases).unwrap();
    let twice = expand_principals(&once, &doc.user_aliases).unwrap();
    assert_eq!(once, twice);
}

#[test]
fn unresolvable_name_is_dropped_not_fatal() {
    let doc = admins_sudoers(vec![
        User::Username("alice".to_string()),
        User::Username("ghost".to_string()),
    ]);
    let names = alice_bob_table();
    let rules = from_sudoers(&doc, &names).unwrap();
    // "ghost" resolves to nothing: only alice's uid is in the subject set,
    // and the unknown name grants nothing.
    assert_eq!(rules[0].subject_uids, vec![1000]);
    assert!(!rules[0].subject_all);
    assert!(!rules[0].is_relevant(&perm(4242, 100, &[])));
}

#[test]
fn wildcard_subject_sets_all_flag() {
    let doc = admins_sudoers(vec![User::Username("ALL".to_string())]);
    let names = alice_bob_table();
    let rules = from_sudoers(&doc, &names).unwrap();
    assert!(rules[0].subject_all);
    assert!(rules[0].is_relevant(&perm(4242, 4242, &[])));
}

#[test]
fn resolved_command_entry_carries_runas_paths_and_options() {
    let doc = admins_sudoers(vec![User::Username("alice".to_string())]);
    let names = alice_bob_table();
    let ParsedSudoers { rules } = doc.retrieve_ids(&names).unwrap();
    let entry = &rules[0].allowed_cmds[0];
    assert!(entry.target_all_users);
    assert!(!entry.target_all_groups);
    assert!(!entry.allow_all_commands);
    assert_eq!(entry.command_paths, vec![b"/bin/ls".to_vec()]);
    assert_eq!(entry.options, vec![RuleOption::Setenv(true)]);
}

#[test]
fn runas_group_wildcard_and_command_wildcard() {
    let doc = Sudoers {
        user_aliases: Vec::new(),
        user_specs: vec![UserSpec {
            user_list: vec![User::Usergroup("wheel".to_string())],
            host_list: Vec::new(),
            cmd_specs: vec![CmdSpec {
                run_as_users: Vec::new(),
                run_as_groups: vec![User::Usergroup("ALL".to_string())],
                options: Vec::new(),
                commands: vec![Command::CmdPath("ALL".to_string())],
            }],
        }],
    };
    let names = NameTable {
        users: Vec::new(),
        groups: vec![("wheel".to_string(), 27)],
    };
    let rules = from_sudoers(&doc, &names).unwrap();
    assert_eq!(rules[0].subject_gids, vec![27]);
    let entry = &rules[0].allowed_cmds[0];
    assert!(entry.target_all_groups);
    assert!(entry.allow_all_commands);
    assert!(entry.command_paths.is_empty());
}

#[test]
fn policy_of_resolved_rules_grants_member_request() {
    let doc = admins_sudoers(vec![User::Useralias("ADMINS".to_string())]);
    let names = alice_bob_table();
    let rules = from_sudoers(&doc, &names).unwrap();
    let current = perm(1001, 100, &[]);
    let requested = perm(0, 0, &[]);
    assert!(evaluate(&current, &requested, &exe("/bin/ls"), &rules));
    assert!(!evaluate(&current, &requested, &exe("/bin/rm"), &rules));
}
