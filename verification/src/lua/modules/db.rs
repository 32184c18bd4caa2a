//! `@skekbot/db`: the server whose settings a script asks for.
use vstd::prelude::*;

use crate::lua::builder::ModuleBuilder;
use crate::lua::modules::rest::{id_arg, id_arg_spec, result_view};

verus! {

/// The error for a server id that is not a number.
pub open spec fn bad_server_id() -> Seq<char> {
    "Invalid Server ID: Must be a numeric string"@
}

/// The server that `getOrCreateServerSettings` reads.
pub fn server_id_arg(text: &str) -> (r: Result<u64, String>)
    ensures
        result_view(r) == id_arg_spec(text@, bad_server_id()),
{
    id_arg(text, "Invalid Server ID: Must be a numeric string")
}


/// The type that `getOrCreateServerSettings` returns, as declared in the module.
pub open spec fn server_settings_export() -> Seq<char> {
    "\nexport type ServerSettings = {\n    guild_id: string,\n    prefix: string,\n    logging_channel: string?,\n}\n    "@
}

/// The declarations of `@skekbot/db`: the settings type and `getOrCreateServerSettings`.
pub fn setup() -> (r: ModuleBuilder)
    ensures
        r.wf(),
        r.name() == "Db"@,
        r.imports() == Seq::<(Seq<char>, Seq<char>)>::empty(),
        r.type_declarations() == seq![server_settings_export()],
        r.members() == seq![("getOrCreateServerSettings"@, "(server_id: string) -> ServerSettings"@)],
{
    let mut b = ModuleBuilder::new("Db");
    b.add_type_declaration(
        "\nexport type ServerSettings = {\n    guild_id: string,\n    prefix: string,\n    logging_channel: string?,\n}\n    ",
    );
    b.add_async_function("getOrCreateServerSettings", "(server_id: string) -> ServerSettings");
    assert(b.type_declarations() =~= seq![server_settings_export()]);
    assert(b.members() =~= seq![("getOrCreateServerSettings"@, "(server_id: string) -> ServerSettings"@)]);
    b
}

} // verus!
