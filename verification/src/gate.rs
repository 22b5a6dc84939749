//! The authorization gate: whether the author of a message may use a
//! command or a group.

use crate::model::{Context, Message, Permissions};
use crate::options::{
    contains_text, lists, texts, CommonOptions, Configuration, OnlyIn, Requirements,
};
use vstd::prelude::*;

verus! {

/// Why a message may not use a command that it names.
#[derive(Debug)]
pub enum DispatchError {
    /// The command is switched off.
    CommandDisabled(String),
    /// Only the owners of the bot may use it.
    OnlyForOwners,
    /// It may be used in private conversations only.
    OnlyForDM,
    /// It may be used in guilds only.
    OnlyForGuilds,
    /// The author lacks some of these permissions.
    LackingPermissions(Permissions),
    /// The author has none of the roles asked for.
    LackingRole,
}

/// The author has one of the allowed roles, or none is asked for.
pub open spec fn roles_suffice(allowed: Seq<Seq<char>>, held: Seq<String>) -> bool {
    allowed.len() == 0 || exists|i: int| 0 <= i < allowed.len() && lists(held, #[trigger] allowed[i])
}

/// What authorization decides: nothing to object, or the first requirement, in
/// the order ownership, place, permissions, roles, that the message fails.
/// Permissions and roles are looked at only where the message names a
/// guild and the cache holds it.
pub open spec fn gate(
    ctx: Context,
    msg: Message,
    config: Configuration,
    asked: Requirements,
) -> Result<(), DispatchError> {
    if asked.owners_only && !config.owns(msg.author_id) {
        Err(DispatchError::OnlyForOwners)
    } else if asked.only_in is Dm && !msg.private {
        Err(DispatchError::OnlyForDM)
    } else if (!config.allow_dm || asked.only_in is Guild) && msg.private {
        Err(DispatchError::OnlyForGuilds)
    } else if msg.guild_id is Some && ctx.guild is Some {
        let guild = ctx.guild->0;
        if !guild.permissions.includes(asked.required_permissions) && !(asked.owner_privilege
            && config.owns(msg.author_id)) {
            Err(DispatchError::LackingPermissions(asked.required_permissions))
        } else if guild.member_roles is Some && !guild.permissions.is_administrator()
            && !roles_suffice(asked.allowed_roles, guild.member_roles->0@) {
            Err(DispatchError::LackingRole)
        } else {
            Ok(())
        }
    } else {
        Ok(())
    }
}

/// Whether the author, who holds the roles `held`, has one of the roles
/// that `options` allows. Any author has if it allows every role.
pub fn has_correct_roles<O: CommonOptions>(options: &O, held: &Vec<String>) -> (r: bool)
    ensures
        r == roles_suffice(options.requirements().allowed_roles, held@),
{
    let allowed = options.allowed_roles();
    if allowed.len() == 0 {
        return true;
    }
    let ghost asked = options.requirements().allowed_roles;
    let mut i: usize = 0;
    while i < allowed.len()
        invariant
            i <= allowed.len(),
            asked == options.requirements().allowed_roles,
            asked == texts(allowed@),
            forall|j: int| 0 <= j < i ==> !lists(held@, #[trigger] asked[j]),
        decreases allowed.len() - i,
    {
        if contains_text(held, allowed[i].as_str()) {
            assert(asked[i as int] == allowed@[i as int]@);
            assert(lists(held@, asked[i as int]));
            return true;
        }
        assert(asked[i as int] == allowed@[i as int]@);
        i += 1;
    }
    false
}

/// Decides whether the author of `msg` may use what has the options
/// `options`. It is asked once for each group and command that a message
/// names.
pub fn check_discrepancy<O: CommonOptions>(
    ctx: &Context,
    msg: &Message,
    config: &Configuration,
    options: &O,
) -> (r: Result<(), DispatchError>)
    ensures
        r == gate(*ctx, *msg, *config, options.requirements()),
{
    if options.owners_only() && !config.is_owner(msg.author_id) {
        return Err(DispatchError::OnlyForOwners);
    }
    let place = options.only_in();
    if matches!(place, OnlyIn::Dm) && !msg.is_private() {
        return Err(DispatchError::OnlyForDM);
    }
    if (!config.allow_dm || matches!(place, OnlyIn::Guild)) && msg.is_private() {
        return Err(DispatchError::OnlyForGuilds);
    }
    if msg.guild_id.is_some() {
        if let Some(guild) = &ctx.guild {
            let required = options.required_permissions();
            if !guild.permissions.contains(required) && !(options.owner_privilege()
                && config.is_owner(msg.author_id)) {
                return Err(DispatchError::LackingPermissions(required));
            }
            if let Some(held) = &guild.member_roles {
                if !guild.permissions.administrator() && !has_correct_roles(options, held) {
                    return Err(DispatchError::LackingRole);
                }
            }
        }
    }
    Ok(())
}

} // verus!
