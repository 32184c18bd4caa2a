//! `@skekbot/me`: the bot's own user, for scripts.
use vstd::prelude::*;

use crate::lua::builder::{sorted_insert, ModuleBuilder};
use crate::text::lowercase;

verus! {

/// The declarations of `@skekbot/me`: it imports `Types` and has `getCurrentUser`.
pub fn setup() -> (r: ModuleBuilder)
    ensures
        r.wf(),
        r.name() == "Me"@,
        r.imports() == seq![("Types"@, "@skekbot/"@ + lowercase("types"@))],
        r.type_declarations() == Seq::<Seq<char>>::empty(),
        r.members() == seq![("getCurrentUser"@, "() -> Types.User"@)],
{
    let mut b = ModuleBuilder::new("Me");
    b.use_module("types", "Types");
    b.add_async_function("getCurrentUser", "() -> Types.User");
    assert(sorted_insert(Seq::empty(), "Types"@, "@skekbot/"@ + lowercase("types"@)) =~= seq![
        ("Types"@, "@skekbot/"@ + lowercase("types"@)),
    ]);
    assert(b.members() =~= seq![("getCurrentUser"@, "() -> Types.User"@)]);
    b
}

/// The error when the bot's own user cannot be fetched.
pub fn current_user_failed() -> (r: &'static str)
    ensures
        r@ == "failed to get myself"@,
{
    "failed to get myself"
}

} // verus!
