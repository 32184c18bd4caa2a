//! The commands of the Traitor game server, open to its moderators only.
use vstd::prelude::*;
use vstd::string::StringExecFns;

use crate::lua::modules::rest::result_view;

verus! {

/// The Traitor server and the roles of its moderators.
#[derive(Debug, Clone)]
pub struct TraitorConfig {
    pub discord_server_id: u64,
    pub moderator_role_ids: Vec<u64>,
}

/// Whether the member holds one of the moderator roles.
pub open spec fn holds_moderator_role(member_roles: Seq<u64>, moderator_roles: Seq<u64>) -> bool {
    exists|i: int| 0 <= i < member_roles.len() && moderator_roles.contains(#[trigger] member_roles[i])
}

/// The checks that need no member profile, in order: the Traitor configuration exists, the
/// command runs in a server, and that server is the Traitor server.
pub open spec fn precheck_spec(traitor: Option<TraitorConfig>, guild_id: Option<u64>) -> Result<(), Seq<char>> {
    match traitor {
        None => Err("no config existed"@),
        Some(t) => match guild_id {
            None => Err("this command must be run in a server, not in DMs"@),
            Some(g) => if g != t.discord_server_id {
                Err("this command can only be used in the Traitor server"@)
            } else {
                Ok(())
            },
        },
    }
}

/// The whole check: after the prechecks, the member's profile must be there and hold a
/// moderator role.
pub open spec fn moderator_spec(
    traitor: Option<TraitorConfig>,
    guild_id: Option<u64>,
    member_roles: Option<Seq<u64>>,
) -> Result<bool, Seq<char>> {
    match precheck_spec(traitor, guild_id) {
        Err(e) => Err(e),
        Ok(()) => match member_roles {
            None => Err("couldn't fetch server member profile"@),
            Some(roles) => if holds_moderator_role(roles, traitor.unwrap().moderator_role_ids@) {
                Ok(true)
            } else {
                Err("you don't have permission to do that"@)
            },
        },
    }
}

/// The checks before the member's profile is fetched.
pub fn moderator_precheck(traitor: Option<&TraitorConfig>, guild_id: Option<u64>) -> (r: Result<(), String>)
    ensures
        result_view(r) == precheck_spec(
            match traitor {
                Some(t) => Some(*t),
                None => None,
            },
            guild_id,
        ),
{
    match traitor {
        None => Err(String::from_str("no config existed")),
        Some(t) => match guild_id {
            None => Err(String::from_str("this command must be run in a server, not in DMs")),
            Some(g) => if g != t.discord_server_id {
                Err(String::from_str("this command can only be used in the Traitor server"))
            } else {
                Ok(())
            },
        },
    }
}

/// Whether any of `roles` is among `wanted`.
fn any_role_in(roles: &Vec<u64>, wanted: &Vec<u64>) -> (r: bool)
    ensures
        r == holds_moderator_role(roles@, wanted@),
{
    let mut i: usize = 0;
    while i < roles.len()
        invariant
            i <= roles.len(),
            forall|k: int| 0 <= k < i ==> !wanted@.contains(#[trigger] roles@[k]),
        decreases roles.len() - i,
    {
        let mut j: usize = 0;
        while j < wanted.len()
            invariant
                i < roles.len(),
                j <= wanted.len(),
                forall|k: int| 0 <= k < j ==> wanted@[k] != roles@[i as int],
            decreases wanted.len() - j,
        {
            if wanted[j] == roles[i] {
                assert(wanted@.contains(roles@[i as int]));
                return true;
            }
            j = j + 1;
        }
        i = i + 1;
    }
    false
}

/// The check on `/ban`: `Ok(true)` for a moderator of the Traitor server, else the reason.
pub fn is_ingame_moderator(
    traitor: Option<&TraitorConfig>,
    guild_id: Option<u64>,
    member_roles: Option<&Vec<u64>>,
) -> (r: Result<bool, String>)
    ensures
        result_view(r) == moderator_spec(
            match traitor {
                Some(t) => Some(*t),
                None => None,
            },
            guild_id,
            match member_roles {
                Some(m) => Some(m@),
                None => None,
            },
        ),
{
    match moderator_precheck(traitor, guild_id) {
        Err(e) => return Err(e),
        Ok(()) => {},
    }
    let t = traitor.unwrap();
    match member_roles {
        None => Err(String::from_str("couldn't fetch server member profile")),
        Some(roles) => if any_role_in(roles, &t.moderator_role_ids) {
            Ok(true)
        } else {
            Err(String::from_str("you don't have permission to do that"))
        },
    }
}

/// The reply of `/ban`, which does not ban anyone yet.
pub fn ban_reply() -> (r: &'static str)
    ensures
        r@ == "yeah this does nothing yet"@,
{
    "yeah this does nothing yet"
}

} // verus!
