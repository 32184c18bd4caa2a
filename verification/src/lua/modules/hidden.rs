//! `@skekbot/hidden`: the hidden joke, for scripts.
use vstd::prelude::*;

use crate::lua::builder::ModuleBuilder;

verus! {

/// The declarations of `@skekbot/hidden`: `warmup` and `getHiddenNoun`.
pub fn setup() -> (r: ModuleBuilder)
    ensures
        r.wf(),
        r.name() == "Hidden"@,
        r.imports() == Seq::<(Seq<char>, Seq<char>)>::empty(),
        r.type_declarations() == Seq::<Seq<char>>::empty(),
        r.members() == seq![
            ("warmup"@, "() -> ()"@),
            ("getHiddenNoun"@, "(message: string) -> string?"@),
        ],
{
    let mut b = ModuleBuilder::new("Hidden");
    b.add_function("warmup", "() -> ()");
    b.add_function("getHiddenNoun", "(message: string) -> string?");
    assert(b.members() =~= seq![
        ("warmup"@, "() -> ()"@),
        ("getHiddenNoun"@, "(message: string) -> string?"@),
    ]);
    b
}

} // verus!
