use skekbot_rs::lua::builder::ModuleBuilder;
use skekbot_rs::lua::callbacks::{BotCallbacks, EventType};
use skekbot_rs::lua::modules::types::{lua_user_type, LuaMessage, LuaUser};
use skekbot_rs::lua::modules::{db, events, hidden, log, me, rest, types};
use skekbot_rs::lua::modules::env::{environment_access, setup as env_setup};
use skekbot_rs::lua::require::{
    cannot_open_module, cannot_resolve_module, check_sandbox, is_script_extension,
    module_chunk_name, module_not_found, require_plan, script_chunk_name, virtual_module_not_found,
    Candidate, RequirePlan,
};
use skekbot_rs::lua::types::{luau_type_text, path_last_segment, rust_type_name, LuauType, LuauTypeExt};

#[test]
fn type_file_of_a_module() {
    let mut b = ModuleBuilder::new("Test");
    b.use_module("types", "Types");
    b.add_type_declaration("export type X = number");
    b.add_function("f", "() -> ()");
    b.add_value("v", "string");
    let (name, content) = b.emit_type_file();
    assert_eq!(name, "test.luau");
    assert_eq!(
        content,
        "local Types = require(\"@skekbot/types\")\n\nexport type X = number\n\nexport type TestModule = {\n    f: () -> (),\n    v: string,\n}\n\nreturn {} :: TestModule\n"
    );
    assert_eq!(b.registry_key(), "@skekbot/test");
}

#[test]
fn type_file_without_imports() {
    let mut b = ModuleBuilder::new("Plain");
    b.add_async_function("g", "(x: number) -> number");
    let (_, content) = b.emit_type_file();
    assert_eq!(
        content,
        "\nexport type PlainModule = {\n    g: (x: number) -> number,\n}\n\nreturn {} :: PlainModule\n"
    );
    assert_eq!(b.type_file_content(), content);
}

#[test]
fn imports_are_sorted_and_replaced_by_alias() {
    let mut b = ModuleBuilder::new("M");
    b.use_module("b", "Zed");
    b.use_module("a", "Alpha");
    b.use_module("Cee", "Zed");
    let content = b.type_file_content();
    assert!(content.starts_with(
        "local Alpha = require(\"@skekbot/a\")\nlocal Zed = require(\"@skekbot/cee\")\n\n"
    ));
}

#[test]
fn an_alias_names_its_last_import() {
    let mut b = ModuleBuilder::new("M");
    b.set_import("Zed", "@skekbot/x");
    b.set_import("Mid", "@skekbot/m");
    b.set_import("Zed", "@skekbot/y");
    assert!(b.type_file_content().starts_with(
        "local Mid = require(\"@skekbot/m\")\nlocal Zed = require(\"@skekbot/y\")\n\n"
    ));
}

#[test]
fn structs_are_declared_by_their_luau_shape() {
    let user = "{ id: string, bot: boolean, username: string, global_name: string?, }";
    assert_eq!(luau_type_text(&lua_user_type()), user);
    assert_eq!(LuaUser::luau_name(), "User");
    assert_eq!(LuaUser::luau_definition(), user);
    let mut b = ModuleBuilder::new("S");
    b.declare_struct::<LuaUser>();
    b.declare_struct_as::<LuaMessage>("Msg");
    let content = b.type_file_content();
    assert!(content.starts_with(&format!(
        "export type User = {user}\nexport type Msg = {{ id: string, content: string, author: {user}, channel_id: string, guild_id: string?, }}\n"
    )));
}

#[test]
fn luau_text_of_each_kind() {
    assert_eq!(luau_type_text(&LuauType::Tuple(vec![LuauType::Number, LuauType::Str])), "{ number, string }");
    assert_eq!(luau_type_text(&LuauType::Tuple(vec![])), "nil");
    assert_eq!(luau_type_text(&LuauType::List(Box::new(LuauType::Boolean))), "{ boolean }");
    assert_eq!(
        luau_type_text(&LuauType::Dictionary(Box::new(LuauType::Str), Box::new(LuauType::Number))),
        "{ [string]: number }"
    );
    assert_eq!(luau_type_text(&LuauType::Nullable(Box::new(LuauType::Str))), "string?");
    assert_eq!(luau_type_text(&LuauType::Reference(None)), "any");
    assert_eq!(luau_type_text(&LuauType::Reference(Some(Box::new(LuauType::Number)))), "number");
    assert_eq!(luau_type_text(&LuauType::Unit), "{}");
    assert_eq!(luau_type_text(&LuauType::Other), "any");
}

#[test]
fn rust_type_names_are_shortened() {
    assert_eq!(rust_type_name("skekbot_rs::lua::LuaUser"), "LuaUser");
    assert_eq!(rust_type_name("Plain"), "Plain");
    assert_eq!(path_last_segment("a::b::"), "");
    assert_eq!(path_last_segment("a:b"), "a:b");
}

#[test]
fn module_setups_declare_their_members() {
    let (name, content) = events::setup().emit_type_file();
    assert_eq!(name, "events.luau");
    assert_eq!(
        content,
        "local Types = require(\"@skekbot/types\")\n\nexport type Connection = { Disconnect: (self: Connection) -> () }\nexport type Signal<T> = { Connect: (self: Signal<T>, callback: (T) -> ()) -> () }\n\nexport type EventsModule = {\n    OnReady: Signal<string>,\n    OnMessageCreate: Signal<Types.Message>,\n    OnGuildMemberUpdate: Signal<Types.GuildMemberUpdate>,\n}\n\nreturn {} :: EventsModule\n"
    );
    assert_eq!(
        env_setup().type_file_content(),
        "\nexport type EnvModule = {\n    getEnvironmentVariable: (key: string) -> string?,\n}\n\nreturn {} :: EnvModule\n"
    );
    assert!(hidden::setup().type_file_content().contains("    getHiddenNoun: (message: string) -> string?,\n"));
    assert!(me::setup().type_file_content().contains("    getCurrentUser: () -> Types.User,\n"));
    assert!(rest::setup().type_file_content().contains(
        "    replyToMessage: (message: Types.Message, content: string) -> (),\n"
    ));
    assert!(db::setup().type_file_content().starts_with(
        "\nexport type ServerSettings = {\n    guild_id: string,\n    prefix: string,\n    logging_channel: string?,\n}\n    \n"
    ));
    let t = types::setup().type_file_content();
    assert!(t.starts_with(
        "export type ServerSettings = { id: number, hidden_chance: number, dad_enabled: boolean, }\nexport type User = "
    ));
    assert_eq!(types::setup().registry_key(), "@skekbot/types");
}

#[test]
fn callbacks_connect_and_disconnect() {
    let mut cb: BotCallbacks<&str> = BotCallbacks::new();
    let a = cb.connect(EventType::Ready, "a");
    let b = cb.connect(EventType::MessageCreate, "b");
    assert_eq!((a, b), (1, 2));
    assert_eq!(cb.get(EventType::Ready, a), Some(&"a"));
    assert_eq!(cb.get(EventType::MessageCreate, a), None);
    assert_eq!(cb.connection_ids(EventType::Ready), vec![1]);
    cb.disconnect(EventType::Ready, a);
    assert_eq!(cb.get(EventType::Ready, a), None);
    cb.disconnect(EventType::Ready, a);
    assert!(cb.connection_ids(EventType::Ready).is_empty());
    assert_eq!(cb.get(EventType::MessageCreate, b), Some(&"b"));
    let c = cb.connect(EventType::GuildMemberUpdate, "c");
    assert_eq!(c, 3);
    cb.clear();
    assert!(cb.connection_ids(EventType::GuildMemberUpdate).is_empty());
    assert_eq!(cb.connect(EventType::Ready, "d"), 4);
}

#[test]
fn require_plans() {
    assert!(matches!(require_plan("@skekbot/log"), RequirePlan::Virtual));
    match require_plan("utils/strings.luau") {
        RequirePlan::Search { relative, candidates } => {
            assert_eq!(relative, "utils/strings.luau");
            assert_eq!(candidates, vec![Candidate::Exact]);
        }
        RequirePlan::Virtual => panic!("a file path is searched"),
    }
    match require_plan("a.b.c") {
        RequirePlan::Search { relative, candidates } => {
            assert_eq!(relative, "a/b/c");
            assert_eq!(
                candidates,
                vec![
                    Candidate::WithExtension("luau".to_string()),
                    Candidate::WithExtension("lua".to_string()),
                    Candidate::InitFile("init.luau".to_string()),
                    Candidate::InitFile("init.lua".to_string()),
                ]
            );
        }
        RequirePlan::Virtual => panic!("a dotted path is searched"),
    }
    match require_plan("mod.lua") {
        RequirePlan::Search { relative, candidates } => {
            assert_eq!(relative, "mod.lua");
            assert_eq!(candidates, vec![Candidate::Exact]);
        }
        RequirePlan::Virtual => panic!("a file is searched"),
    }
    match require_plan("win\\path") {
        RequirePlan::Search { candidates, .. } => assert_eq!(candidates, vec![Candidate::Exact]),
        RequirePlan::Virtual => panic!("a file is searched"),
    }
}

#[test]
fn require_errors_and_names() {
    assert_eq!(virtual_module_not_found("@skekbot/x"), "virtual module '@skekbot/x' not found");
    assert_eq!(module_not_found("a.b"), "module 'a.b' not found");
    assert_eq!(cannot_resolve_module("a", "gone"), "cannot resolve module 'a': gone");
    assert_eq!(cannot_open_module("a", "denied"), "cannot open file 'a': denied");
    assert_eq!(check_sandbox("x", true), Ok(()));
    assert_eq!(
        check_sandbox("../secret", false),
        Err("access denied: module '../secret' is outside the allowed modules directory".to_string())
    );
    assert_eq!(module_chunk_name("a.b"), "@a.b");
    assert_eq!(script_chunk_name(Some("scripts/x.luau")), "=scripts/x.luau");
    assert_eq!(script_chunk_name(None), "=unknown_file");
    assert!(is_script_extension(Some("luau")));
    assert!(is_script_extension(Some("lua")));
    assert!(!is_script_extension(Some("txt")));
    assert!(!is_script_extension(None));
}

#[test]
fn log_levels_and_lines() {
    assert_eq!(log::log_level("error"), log::LogLevel::Error);
    assert_eq!(log::log_level("ERROR"), log::LogLevel::Error);
    assert_eq!(log::log_level("eRrOr"), log::LogLevel::Error);
    assert_eq!(log::log_level("Warn"), log::LogLevel::Warn);
    assert_eq!(log::log_level("info"), log::LogLevel::Info);
    assert_eq!(log::log_level("debug"), log::LogLevel::Info);
    assert_eq!(log::log_line("a.luau:3", "hi"), "(a.luau:3) hi");
    assert_eq!(log::level_from_uppercase("WARN"), log::LogLevel::Warn);
    assert_eq!(log::level_from_uppercase("warn"), log::LogLevel::Info);
}

#[test]
fn log_caller_locations() {
    assert_eq!(log::caller_location(Some("=scripts/x.luau"), "12"), "scripts/x.luau:12");
    assert_eq!(log::caller_location(Some("@mod"), "12"), "mod:12");
    assert_eq!(log::caller_location(Some("[string \"chunk\"]"), "5"), "chunk:5");
    assert_eq!(log::caller_location(Some("[string \"=inner\"]"), "5"), "inner:5");
    assert_eq!(log::caller_location(Some("[string \"]"), "1"), "[string \"]:1");
    assert_eq!(log::caller_location(Some("plain"), "1"), "plain:1");
    assert_eq!(log::caller_location(None, "nil"), "unknown");
}

#[test]
fn environment_access_is_gated() {
    assert_eq!(environment_access(true, "HOME"), Ok(()));
    assert_eq!(
        environment_access(false, "TOKEN"),
        Err("environment access is disabled (attempted to read 'TOKEN')".to_string())
    );
}

#[test]
fn ids_from_scripts() {
    assert_eq!(rest::channel_id_arg("123"), Ok(123));
    assert_eq!(
        rest::channel_id_arg("abc"),
        Err("invalid channel id: must be a numeric string".to_string())
    );
    assert_eq!(db::server_id_arg("12"), Ok(12));
    assert_eq!(
        db::server_id_arg(""),
        Err("Invalid Server ID: Must be a numeric string".to_string())
    );
}

#[test]
fn event_messages_can_be_answered() {
    let author = LuaUser::from_parts(42, false, "bob".to_string(), None);
    assert_eq!(author.id, "42");
    let m = LuaMessage::from_parts(5, "hi".to_string(), author.clone(), 7, Some(9));
    assert_eq!(m.channel_id, "7");
    assert_eq!(m.guild_id, Some("9".to_string()));
    assert_eq!(rest::reply_target(&m), Ok((7, 5)));
    let bad = LuaMessage { id: "x".to_string(), ..m.clone() };
    assert_eq!(
        rest::reply_target(&bad),
        Err("invalid message id: must be a numeric string".to_string())
    );
    let worse = LuaMessage { channel_id: "y".to_string(), ..bad };
    assert_eq!(
        rest::reply_target(&worse),
        Err("invalid channel id: must be a numeric string".to_string())
    );
    assert_eq!(me::current_user_failed(), "failed to get myself");
}
