//! `@skekbot/events`: the signals that scripts connect to.
use vstd::prelude::*;

use crate::lua::builder::{sorted_insert, ModuleBuilder};
use crate::text::lowercase;

verus! {

/// The declarations of `@skekbot/events`: it imports `Types`, declares `Connection` and
/// `Signal<T>`, and has one signal per event.
pub fn setup() -> (r: ModuleBuilder)
    ensures
        r.wf(),
        r.name() == "Events"@,
        r.imports() == seq![("Types"@, "@skekbot/"@ + lowercase("types"@))],
        r.type_declarations() == seq![
            "export type Connection = { Disconnect: (self: Connection) -> () }"@,
            "export type Signal<T> = { Connect: (self: Signal<T>, callback: (T) -> ()) -> () }"@,
        ],
        r.members() == seq![
            ("OnReady"@, "Signal<string>"@),
            ("OnMessageCreate"@, "Signal<Types.Message>"@),
            ("OnGuildMemberUpdate"@, "Signal<Types.GuildMemberUpdate>"@),
        ],
{
    let mut b = ModuleBuilder::new("Events");
    b.use_module("types", "Types");
    b.add_type_declaration("export type Connection = { Disconnect: (self: Connection) -> () }");
    b.add_type_declaration(
        "export type Signal<T> = { Connect: (self: Signal<T>, callback: (T) -> ()) -> () }",
    );
    b.add_value("OnReady", "Signal<string>");
    b.add_value("OnMessageCreate", "Signal<Types.Message>");
    b.add_value("OnGuildMemberUpdate", "Signal<Types.GuildMemberUpdate>");
    assert(sorted_insert(Seq::empty(), "Types"@, "@skekbot/"@ + lowercase("types"@)) =~= seq![
        ("Types"@, "@skekbot/"@ + lowercase("types"@)),
    ]);
    assert(b.type_declarations() =~= seq![
        "export type Connection = { Disconnect: (self: Connection) -> () }"@,
        "export type Signal<T> = { Connect: (self: Signal<T>, callback: (T) -> ()) -> () }"@,
    ]);
    assert(b.members() =~= seq![
        ("OnReady"@, "Signal<string>"@),
        ("OnMessageCreate"@, "Signal<Types.Message>"@),
        ("OnGuildMemberUpdate"@, "Signal<Types.GuildMemberUpdate>"@),
    ]);
    b
}

} // verus!
