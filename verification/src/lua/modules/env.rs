//! `@skekbot/env`: reading the environment, when the configuration allows it.
use vstd::prelude::*;
use vstd::string::StringExecFns;

use crate::lua::builder::ModuleBuilder;

verus! {

/// The error for a script that reads the environment while that is not allowed.
pub fn environment_access(allowed: bool, key: &str) -> (r: Result<(), String>)
    ensures
        allowed ==> r is Ok,
        !allowed ==> (r matches Err(e) && e@ == "environment access is disabled (attempted to read '"@
            + key@ + "')"@),
{
    if allowed {
        Ok(())
    } else {
        Err(String::from_str("environment access is disabled (attempted to read '").concat(key).concat(
            "')",
        ))
    }
}


/// The declarations of `@skekbot/env`: `getEnvironmentVariable`.
pub fn setup() -> (r: ModuleBuilder)
    ensures
        r.wf(),
        r.name() == "Env"@,
        r.imports() == Seq::<(Seq<char>, Seq<char>)>::empty(),
        r.type_declarations() == Seq::<Seq<char>>::empty(),
        r.members() == seq![("getEnvironmentVariable"@, "(key: string) -> string?"@)],
{
    let mut b = ModuleBuilder::new("Env");
    b.add_function("getEnvironmentVariable", "(key: string) -> string?");
    assert(b.members() =~= seq![("getEnvironmentVariable"@, "(key: string) -> string?"@)]);
    b
}

} // verus!
