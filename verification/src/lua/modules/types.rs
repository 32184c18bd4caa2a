//! The values that scripts receive: users, messages and member updates.
use vstd::prelude::*;

use crate::lua::builder::ModuleBuilder;
use crate::lua::types::{luau_field, luau_text, luau_type_text, parts_text, LuauType, LuauTypeExt};
use crate::text::{decimal, decimal_string};

verus! {

/// A Discord user as scripts see it (`Types.User`).
#[derive(Debug, Clone)]
pub struct LuaUser {
    pub id: String,
    pub bot: bool,
    pub username: String,
    pub global_name: Option<String>,
}

/// A message as scripts see it (`Types.Message`).
#[derive(Debug, Clone)]
pub struct LuaMessage {
    pub id: String,
    pub content: String,
    pub author: LuaUser,
    pub channel_id: String,
    pub guild_id: Option<String>,
}

/// A member update as scripts see it (`Types.GuildMemberUpdate`).
#[derive(Debug, Clone)]
pub struct LuaGuildMemberUpdate {
    pub guild_id: String,
    pub user: LuaUser,
    pub nick: Option<String>,
}

/// An optional id in decimal.
pub open spec fn opt_decimal(id: Option<u64>) -> Option<Seq<char>> {
    match id {
        Some(i) => Some(decimal(i as nat)),
        None => None,
    }
}

impl LuaUser {
    /// The user with numeric id `id`, written in decimal.
    pub fn from_parts(id: u64, bot: bool, username: String, global_name: Option<String>) -> (r: LuaUser)
        ensures
            r.id@ == decimal(id as nat),
            r.bot == bot,
            r.username == username,
            r.global_name == global_name,
    {
        LuaUser { id: decimal_string(id), bot, username, global_name }
    }
}

impl LuaMessage {
    /// The message with numeric ids written in decimal.
    pub fn from_parts(id: u64, content: String, author: LuaUser, channel_id: u64, guild_id: Option<u64>) -> (r: LuaMessage)
        ensures
            r.id@ == decimal(id as nat),
            r.content == content,
            r.author == author,
            r.channel_id@ == decimal(channel_id as nat),
            match r.guild_id {
                Some(g) => opt_decimal(guild_id) == Some(g@),
                None => guild_id is None,
            },
    {
        let guild = match guild_id {
            Some(g) => Some(decimal_string(g)),
            None => None,
        };
        LuaMessage {
            id: decimal_string(id),
            content,
            author,
            channel_id: decimal_string(channel_id),
            guild_id: guild,
        }
    }
}

impl LuaGuildMemberUpdate {
    /// The update with the guild id written in decimal.
    pub fn from_parts(guild_id: u64, user: LuaUser, nick: Option<String>) -> (r: LuaGuildMemberUpdate)
        ensures
            r.guild_id@ == decimal(guild_id as nat),
            r.user == user,
            r.nick == nick,
    {
        LuaGuildMemberUpdate { guild_id: decimal_string(guild_id), user, nick }
    }
}

/// The declaration of `Types.User`.
pub open spec fn user_declaration() -> Seq<char> {
    "{ id: string, bot: boolean, username: string, global_name: string?, }"@
}

/// The declaration of `Types.Message`; the author is declared in place.
pub open spec fn message_declaration() -> Seq<char> {
    "{ id: string, content: string, author: "@ + user_declaration()
        + ", channel_id: string, guild_id: string?, }"@
}

/// The declaration of `Types.GuildMemberUpdate`; the user is declared in place.
pub open spec fn member_update_declaration() -> Seq<char> {
    "{ guild_id: string, user: "@ + user_declaration() + ", nick: string?, }"@
}

/// The declaration of the server settings row: its id, the chance of the hidden joke, and
/// whether the dad joke is on.
pub open spec fn server_settings_declaration() -> Seq<char> {
    "{ id: number, hidden_chance: number, dad_enabled: boolean, }"@
}

/// The Luau shape of the stored server settings row (`id`, `hidden_chance`, `dad_enabled`).
pub struct ServerSettingsShape;

/// The shape of the server settings row.
pub fn server_settings_type() -> (t: LuauType)
    ensures
        luau_text(t) == server_settings_declaration(),
{
    let f0 = luau_field("id", LuauType::Number);
    let f1 = luau_field("hidden_chance", LuauType::Number);
    let f2 = luau_field("dad_enabled", LuauType::Boolean);
    let ghost gs = seq![f0, f1, f2];
    let mut fs: Vec<crate::lua::types::LuauField> = Vec::new();
    fs.push(f0);
    fs.push(f1);
    fs.push(f2);
    assert(fs@ =~= gs);
    let t = LuauType::Named(fs);
    proof {
        reveal_with_fuel(parts_text, 4);
        reveal_strlit("{ ");
        reveal_strlit("}");
        reveal_strlit("id");
        reveal_strlit("hidden_chance");
        reveal_strlit("dad_enabled");
        reveal_strlit(": ");
        reveal_strlit(", ");
        reveal_strlit("number");
        reveal_strlit("boolean");
        reveal_strlit("{ id: number, hidden_chance: number, dad_enabled: boolean, }");
        reveal_strlit("id: number, ");
        reveal_strlit("id: number, hidden_chance: number, ");
        reveal_strlit("id: number, hidden_chance: number, dad_enabled: boolean, ");
        assert(parts_text(t, 1) =~= "id: number, "@);
        assert(parts_text(t, 2) =~= "id: number, hidden_chance: number, "@);
        assert(parts_text(t, 3) =~= "id: number, hidden_chance: number, dad_enabled: boolean, "@);
        assert(luau_text(t) =~= server_settings_declaration());
    }
    t
}

impl LuauTypeExt for ServerSettingsShape {
    open spec fn declared_name() -> Seq<char> {
        "Model"@
    }

    open spec fn declaration() -> Seq<char> {
        server_settings_declaration()
    }

    fn luau_name() -> (r: String) {
        String::from_str("Model")
    }

    fn luau_definition() -> (r: String) {
        luau_type_text(&server_settings_type())
    }
}

/// The shape of `Types.User`.
pub fn lua_user_type() -> (t: LuauType)
    ensures
        luau_text(t) == user_declaration(),
{
    let f0 = luau_field("id", LuauType::Str);
    let f1 = luau_field("bot", LuauType::Boolean);
    let f2 = luau_field("username", LuauType::Str);
    let f3 = luau_field("global_name", LuauType::Nullable(Box::new(LuauType::Str)));
    let ghost g0 = f0;
    let ghost g1 = f1;
    let ghost g2 = f2;
    let ghost g3 = f3;
    let mut fs: Vec<crate::lua::types::LuauField> = Vec::new();
    fs.push(f0);
    fs.push(f1);
    fs.push(f2);
    fs.push(f3);
    assert(fs@ =~= seq![g0, g1, g2, g3]);
    let t = LuauType::Named(fs);
    proof {
        reveal_with_fuel(parts_text, 5);
        reveal_strlit("{ id: string, bot: boolean, username: string, global_name: string?, }");
        reveal_strlit("{ ");
        reveal_strlit("}");
        reveal_strlit("id");
        reveal_strlit("bot");
        reveal_strlit("username");
        reveal_strlit("global_name");
        reveal_strlit(": ");
        reveal_strlit(", ");
        reveal_strlit("string");
        reveal_strlit("boolean");
        reveal_strlit("?");
        reveal_strlit("id: string, ");
        reveal_strlit("id: string, bot: boolean, ");
        reveal_strlit("id: string, bot: boolean, username: string, ");
        reveal_strlit("id: string, bot: boolean, username: string, global_name: string?, ");
        assert(parts_text(t, 1) =~= "id: string, "@);
        assert(parts_text(t, 2) =~= "id: string, bot: boolean, "@);
        assert(parts_text(t, 3) =~= "id: string, bot: boolean, username: string, "@);
        assert(parts_text(t, 4) =~= "id: string, bot: boolean, username: string, global_name: string?, "@);
        assert(luau_text(t) =~= "{ id: string, bot: boolean, username: string, global_name: string?, }"@);
    }
    t
}

impl LuauTypeExt for LuaUser {
    open spec fn declared_name() -> Seq<char> {
        "User"@
    }

    open spec fn declaration() -> Seq<char> {
        user_declaration()
    }

    fn luau_name() -> (r: String) {
        String::from_str("User")
    }

    fn luau_definition() -> (r: String) {
        luau_type_text(&lua_user_type())
    }
}

/// The shape of `Types.Message`.
pub fn lua_message_type() -> (t: LuauType)
    ensures
        luau_text(t) == message_declaration(),
{
    let user = lua_user_type();
    let ghost ut = user;
    let f0 = luau_field("id", LuauType::Str);
    let f1 = luau_field("content", LuauType::Str);
    let f2 = luau_field("author", LuauType::Reference(Some(Box::new(user))));
    let f3 = luau_field("channel_id", LuauType::Str);
    let f4 = luau_field("guild_id", LuauType::Nullable(Box::new(LuauType::Str)));
    let ghost gs = seq![f0, f1, f2, f3, f4];
    let mut fs: Vec<crate::lua::types::LuauField> = Vec::new();
    fs.push(f0);
    fs.push(f1);
    fs.push(f2);
    fs.push(f3);
    fs.push(f4);
    assert(fs@ =~= gs);
    let t = LuauType::Named(fs);
    proof {
        reveal_with_fuel(parts_text, 6);
        reveal_strlit("{ ");
        reveal_strlit("}");
        reveal_strlit("id");
        reveal_strlit("content");
        reveal_strlit("author");
        reveal_strlit("channel_id");
        reveal_strlit("guild_id");
        reveal_strlit(": ");
        reveal_strlit(", ");
        reveal_strlit("string");
        reveal_strlit("?");
        reveal_strlit("{ id: string, content: string, author: ");
        reveal_strlit(", channel_id: string, guild_id: string?, }");
        let u = luau_text(ut);
        assert(parts_text(t, 2) =~= "id: string, content: string, "@) by {
            reveal_strlit("id: string, content: string, ");
        }
        assert(parts_text(t, 3) =~= "id: string, content: string, author: "@ + u + ", "@) by {
            reveal_strlit("id: string, content: string, author: ");
        }
        reveal_strlit(", channel_id: string, ");
        reveal_strlit(", channel_id: string, guild_id: string?, ");
        assert(parts_text(t, 4) =~= "id: string, content: string, author: "@ + u + ", channel_id: string, "@);
        assert(parts_text(t, 5) =~= "id: string, content: string, author: "@ + u + ", channel_id: string, guild_id: string?, "@);
        assert(luau_text(t) =~= message_declaration());
    }
    t
}

impl LuauTypeExt for LuaMessage {
    open spec fn declared_name() -> Seq<char> {
        "Message"@
    }

    open spec fn declaration() -> Seq<char> {
        message_declaration()
    }

    fn luau_name() -> (r: String) {
        String::from_str("Message")
    }

    fn luau_definition() -> (r: String) {
        luau_type_text(&lua_message_type())
    }
}

/// The shape of `Types.GuildMemberUpdate`.
pub fn lua_member_update_type() -> (t: LuauType)
    ensures
        luau_text(t) == member_update_declaration(),
{
    let user = lua_user_type();
    let ghost ut = user;
    let f0 = luau_field("guild_id", LuauType::Str);
    let f1 = luau_field("user", LuauType::Reference(Some(Box::new(user))));
    let f2 = luau_field("nick", LuauType::Nullable(Box::new(LuauType::Str)));
    let ghost gs = seq![f0, f1, f2];
    let mut fs: Vec<crate::lua::types::LuauField> = Vec::new();
    fs.push(f0);
    fs.push(f1);
    fs.push(f2);
    assert(fs@ =~= gs);
    let t = LuauType::Named(fs);
    proof {
        reveal_with_fuel(parts_text, 4);
        reveal_strlit("{ ");
        reveal_strlit("}");
        reveal_strlit("guild_id");
        reveal_strlit("user");
        reveal_strlit("nick");
        reveal_strlit(": ");
        reveal_strlit(", ");
        reveal_strlit("string");
        reveal_strlit("?");
        reveal_strlit("{ guild_id: string, user: ");
        reveal_strlit(", nick: string?, }");
        let u = luau_text(ut);
        reveal_strlit("guild_id: string, ");
        reveal_strlit("guild_id: string, user: ");
        reveal_strlit(", nick: string?, ");
        assert(parts_text(t, 1) =~= "guild_id: string, "@);
        assert(parts_text(t, 2) =~= "guild_id: string, user: "@ + u + ", "@);
        assert(parts_text(t, 3) =~= "guild_id: string, user: "@ + u + ", nick: string?, "@);
        assert(luau_text(t) =~= member_update_declaration());
    }
    t
}

impl LuauTypeExt for LuaGuildMemberUpdate {
    open spec fn declared_name() -> Seq<char> {
        "GuildMemberUpdate"@
    }

    open spec fn declaration() -> Seq<char> {
        member_update_declaration()
    }

    fn luau_name() -> (r: String) {
        String::from_str("GuildMemberUpdate")
    }

    fn luau_definition() -> (r: String) {
        luau_type_text(&lua_member_update_type())
    }
}

/// The declarations of `@skekbot/types`: the server settings, users, messages and member
/// updates that the other modules hand to scripts.
pub fn setup() -> (r: ModuleBuilder)
    ensures
        r.wf(),
        r.name() == "Types"@,
        r.imports() == Seq::<(Seq<char>, Seq<char>)>::empty(),
        r.members() == Seq::<(Seq<char>, Seq<char>)>::empty(),
        r.type_declarations() == seq![
            "export type "@ + "ServerSettings"@ + " = "@ + server_settings_declaration(),
            "export type "@ + "User"@ + " = "@ + user_declaration(),
            "export type "@ + "Message"@ + " = "@ + message_declaration(),
            "export type "@ + "GuildMemberUpdate"@ + " = "@ + member_update_declaration(),
        ],
{
    let mut b = ModuleBuilder::new("Types");
    b.declare_struct_as::<ServerSettingsShape>("ServerSettings");
    b.declare_struct_as::<LuaUser>("User");
    b.declare_struct_as::<LuaMessage>("Message");
    b.declare_struct_as::<LuaGuildMemberUpdate>("GuildMemberUpdate");
    assert(b.type_declarations() =~= seq![
        "export type "@ + "ServerSettings"@ + " = "@ + server_settings_declaration(),
        "export type "@ + "User"@ + " = "@ + user_declaration(),
        "export type "@ + "Message"@ + " = "@ + message_declaration(),
        "export type "@ + "GuildMemberUpdate"@ + " = "@ + member_update_declaration(),
    ]);
    b
}

} // verus!
