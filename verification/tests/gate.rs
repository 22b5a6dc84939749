use dispatch::gate::{check_discrepancy, has_correct_roles, DispatchError};
use dispatch::model::{CachedGuild, Context, Message, Permissions, ADMINISTRATOR};
use dispatch::options::{CommandOptions, Configuration, GroupOptions, OnlyIn, WithWhiteSpace};
use std::collections::HashSet;

fn gate_config(owners: &[u64], allow_dm: bool) -> Configuration {
    Configuration {
        allow_dm,
        with_whitespace: WithWhiteSpace { prefixes: true, groups: true, commands: true },
        by_space: true,
        case_insensitive: false,
        on_mention: None,
        owners: owners.iter().copied().collect::<HashSet<u64>>(),
        prefixes: Vec::new(),
        disabled_commands: Vec::new(),
    }
}

fn gate_options() -> CommandOptions {
    CommandOptions {
        names: vec!["ping".to_string()],
        owners_only: false,
        only_in: OnlyIn::Anywhere,
        required_permissions: Permissions { bits: 0 },
        owner_privilege: true,
        allowed_roles: Vec::new(),
        sub_commands: Vec::new(),
    }
}

fn in_guild(author_id: u64) -> Message {
    Message { author_id, guild_id: Some(10), private: false }
}

fn in_private(author_id: u64) -> Message {
    Message { author_id, guild_id: None, private: true }
}

fn cached(bits: u64, roles: Option<&[&str]>) -> Context {
    Context {
        dynamic_prefixes: Vec::new(),
        guild: Some(CachedGuild {
            permissions: Permissions { bits },
            member_roles: roles.map(|r| r.iter().map(|s| s.to_string()).collect()),
        }),
    }
}

fn uncached() -> Context {
    Context { dynamic_prefixes: Vec::new(), guild: None }
}

fn said(r: Result<(), DispatchError>) -> String {
    format!("{:?}", r)
}

#[test]
fn plain_command_is_allowed() {
    let r = check_discrepancy(&cached(0, Some(&[])), &in_guild(1), &gate_config(&[], true), &gate_options());
    assert!(r.is_ok());
}

#[test]
fn owners_only_rejects_others() {
    let mut options = gate_options();
    options.owners_only = true;
    let config = gate_config(&[7], true);
    assert_eq!(said(check_discrepancy(&uncached(), &in_guild(1), &config, &options)), "Err(OnlyForOwners)");
    assert!(check_discrepancy(&uncached(), &in_guild(7), &config, &options).is_ok());
}

#[test]
fn dm_only_rejects_guild_messages() {
    let mut options = gate_options();
    options.only_in = OnlyIn::Dm;
    let config = gate_config(&[], true);
    assert_eq!(said(check_discrepancy(&uncached(), &in_guild(1), &config, &options)), "Err(OnlyForDM)");
    assert!(check_discrepancy(&uncached(), &in_private(1), &config, &options).is_ok());
}

#[test]
fn guild_only_rejects_private_messages() {
    let mut options = gate_options();
    options.only_in = OnlyIn::Guild;
    let config = gate_config(&[], true);
    assert_eq!(said(check_discrepancy(&uncached(), &in_private(1), &config, &options)), "Err(OnlyForGuilds)");
    assert!(check_discrepancy(&uncached(), &in_guild(1), &config, &options).is_ok());
}

#[test]
fn private_messages_can_be_switched_off() {
    let config = gate_config(&[], false);
    assert_eq!(said(check_discrepancy(&uncached(), &in_private(1), &config, &gate_options())), "Err(OnlyForGuilds)");
    assert!(check_discrepancy(&uncached(), &in_guild(1), &config, &gate_options()).is_ok());
}

#[test]
fn ownership_is_checked_before_place() {
    let mut options = gate_options();
    options.owners_only = true;
    options.only_in = OnlyIn::Dm;
    let config = gate_config(&[7], true);
    assert_eq!(said(check_discrepancy(&uncached(), &in_guild(1), &config, &options)), "Err(OnlyForOwners)");
    assert_eq!(said(check_discrepancy(&uncached(), &in_guild(7), &config, &options)), "Err(OnlyForDM)");
}

#[test]
fn missing_permissions_are_reported() {
    let mut options = gate_options();
    options.required_permissions = Permissions { bits: 0b110 };
    let config = gate_config(&[], true);
    let r = check_discrepancy(&cached(0b010, None), &in_guild(1), &config, &options);
    assert_eq!(said(r), "Err(LackingPermissions(Permissions { bits: 6 }))");
    assert!(check_discrepancy(&cached(0b1110, None), &in_guild(1), &config, &options).is_ok());
}

#[test]
fn owner_privilege_replaces_permissions() {
    let mut options = gate_options();
    options.required_permissions = Permissions { bits: 0b110 };
    let config = gate_config(&[7], true);
    assert!(check_discrepancy(&cached(0, None), &in_guild(7), &config, &options).is_ok());
    options.owner_privilege = false;
    let r = check_discrepancy(&cached(0, None), &in_guild(7), &config, &options);
    assert_eq!(said(r), "Err(LackingPermissions(Permissions { bits: 6 }))");
}

#[test]
fn one_allowed_role_is_enough() {
    let mut options = gate_options();
    options.allowed_roles = vec!["mod".to_string(), "admin".to_string()];
    let config = gate_config(&[], true);
    assert!(check_discrepancy(&cached(0, Some(&["guest", "admin"])), &in_guild(1), &config, &options).is_ok());
    let r = check_discrepancy(&cached(0, Some(&["guest"])), &in_guild(1), &config, &options);
    assert_eq!(said(r), "Err(LackingRole)");
    let r = check_discrepancy(&cached(0, Some(&[])), &in_guild(1), &config, &options);
    assert_eq!(said(r), "Err(LackingRole)");
}

#[test]
fn administrators_need_no_role() {
    let mut options = gate_options();
    options.allowed_roles = vec!["mod".to_string()];
    let config = gate_config(&[], true);
    assert!(check_discrepancy(&cached(ADMINISTRATOR, Some(&[])), &in_guild(1), &config, &options).is_ok());
}

#[test]
fn owners_still_need_a_role() {
    let mut options = gate_options();
    options.allowed_roles = vec!["mod".to_string()];
    let config = gate_config(&[7], true);
    let r = check_discrepancy(&cached(0, Some(&[])), &in_guild(7), &config, &options);
    assert_eq!(said(r), "Err(LackingRole)");
}

#[test]
fn roles_are_not_checked_for_an_uncached_member() {
    let mut options = gate_options();
    options.allowed_roles = vec!["mod".to_string()];
    let config = gate_config(&[], true);
    assert!(check_discrepancy(&cached(0, None), &in_guild(1), &config, &options).is_ok());
}

#[test]
fn permissions_are_checked_before_roles() {
    let mut options = gate_options();
    options.required_permissions = Permissions { bits: 1 };
    options.allowed_roles = vec!["mod".to_string()];
    let config = gate_config(&[], true);
    let r = check_discrepancy(&cached(0, Some(&[])), &in_guild(1), &config, &options);
    assert_eq!(said(r), "Err(LackingPermissions(Permissions { bits: 1 }))");
}

#[test]
fn unknown_guild_lets_the_message_pass() {
    let mut options = gate_options();
    options.required_permissions = Permissions { bits: u64::MAX };
    options.owner_privilege = false;
    options.allowed_roles = vec!["mod".to_string()];
    let config = gate_config(&[], true);
    assert!(check_discrepancy(&uncached(), &in_guild(1), &config, &options).is_ok());
}

#[test]
fn unknown_guild_does_not_lift_the_other_checks() {
    let mut options = gate_options();
    options.owners_only = true;
    let config = gate_config(&[], true);
    assert_eq!(said(check_discrepancy(&uncached(), &in_guild(1), &config, &options)), "Err(OnlyForOwners)");
}

#[test]
fn message_without_guild_id_skips_the_cache() {
    let mut options = gate_options();
    options.required_permissions = Permissions { bits: 1 };
    options.owner_privilege = false;
    let config = gate_config(&[], true);
    let msg = Message { author_id: 1, guild_id: None, private: false };
    assert!(check_discrepancy(&cached(0, Some(&[])), &msg, &config, &options).is_ok());
}

#[test]
fn groups_pass_the_same_gate() {
    let options = GroupOptions {
        prefixes: vec!["admin".to_string()],
        owners_only: true,
        only_in: OnlyIn::Anywhere,
        required_permissions: Permissions { bits: 0 },
        owner_privilege: true,
        allowed_roles: Vec::new(),
        default_command: None,
    };
    let config = gate_config(&[7], true);
    assert_eq!(said(check_discrepancy(&uncached(), &in_guild(1), &config, &options)), "Err(OnlyForOwners)");
    assert!(check_discrepancy(&uncached(), &in_guild(7), &config, &options).is_ok());
}

#[test]
fn roles_match_by_name() {
    let mut options = gate_options();
    assert!(has_correct_roles(&options, &Vec::new()));
    options.allowed_roles = vec!["mod".to_string()];
    assert!(!has_correct_roles(&options, &Vec::new()));
    assert!(!has_correct_roles(&options, &vec!["Mod".to_string(), "mo".to_string()]));
    assert!(has_correct_roles(&options, &vec!["x".to_string(), "mod".to_string()]));
}

#[test]
fn permissions_contain_their_parts() {
    let all = Permissions { bits: 0b1011 };
    assert!(all.contains(Permissions { bits: 0b0011 }));
    assert!(all.contains(Permissions::empty()));
    assert!(!all.contains(Permissions { bits: 0b0100 }));
    assert!(all.administrator());
    assert!(!Permissions { bits: 0b0111 }.administrator());
}
