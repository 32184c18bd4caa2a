//! A module that scripts can `require`, and the Luau type file that declares it.
use vstd::prelude::*;
use vstd::string::StringExecFns;

use crate::lua::types::LuauTypeExt;
use crate::text::{chars_of, lowercase, string_of, to_lowercase};

verus! {

/// `a` comes before `b` in the order of `String` (bytewise, which for UTF-8 is the order
/// of code points): the first differing character decides, and a prefix comes first.
pub open spec fn str_less(a: Seq<char>, b: Seq<char>) -> bool
    decreases a.len(),
{
    if a.len() == 0 {
        b.len() > 0
    } else if b.len() == 0 {
        false
    } else if a[0] != b[0] {
        a[0] < b[0]
    } else {
        str_less(a.drop_first(), b.drop_first())
    }
}

/// The order of strings is strict and total.
pub proof fn lemma_str_less_total(a: Seq<char>, b: Seq<char>)
    ensures
        !(str_less(a, b) && str_less(b, a)),
        !str_less(a, a),
        a != b ==> str_less(a, b) || str_less(b, a),
    decreases a.len(),
{
    if a.len() > 0 && b.len() > 0 {
        lemma_str_less_total(a.drop_first(), b.drop_first());
        if a[0] == b[0] && a != b {
            assert(a.drop_first() != b.drop_first()) by {
                if a.drop_first() == b.drop_first() {
                    assert(a =~= seq![a[0]] + a.drop_first());
                    assert(b =~= seq![b[0]] + b.drop_first());
                }
            }
        }
        if a.len() > 0 {
            lemma_str_less_total(a.drop_first(), a.drop_first());
        }
    } else if a.len() > 0 {
        lemma_str_less_total(a.drop_first(), a.drop_first());
    } else if b.len() == 0 {
        assert(a =~= b);
    }
}

/// The order of strings is transitive.
pub proof fn lemma_str_less_trans(a: Seq<char>, b: Seq<char>, c: Seq<char>)
    requires
        str_less(a, b),
        str_less(b, c),
    ensures
        str_less(a, c),
    decreases a.len(),
{
    if a.len() > 0 && b.len() > 0 && c.len() > 0 && a[0] == b[0] && b[0] == c[0] {
        lemma_str_less_trans(a.drop_first(), b.drop_first(), c.drop_first());
    }
}

/// Compares two strings in the order of `String`.
pub fn string_less(a: &Vec<char>, b: &Vec<char>) -> (r: bool)
    ensures
        r == str_less(a@, b@),
{
    let mut i: usize = 0;
    assert(a@.skip(0) =~= a@);
    assert(b@.skip(0) =~= b@);
    while i < a.len() && i < b.len() && a[i] == b[i]
        invariant
            i <= a.len(),
            i <= b.len(),
            str_less(a@, b@) == str_less(a@.skip(i as int), b@.skip(i as int)),
        decreases a.len() - i,
    {
        assert(a@.skip(i as int).drop_first() =~= a@.skip(i as int + 1));
        assert(b@.skip(i as int).drop_first() =~= b@.skip(i as int + 1));
        i = i + 1;
    }
    if i == a.len() {
        i < b.len()
    } else if i == b.len() {
        false
    } else {
        a[i] < b[i]
    }
}

/// The entries are in strictly increasing order of their keys.
pub open spec fn keys_sorted(s: Seq<(Seq<char>, Seq<char>)>) -> bool {
    forall|i: int, j: int| 0 <= i < j < s.len() ==> str_less(#[trigger] s[i].0, #[trigger] s[j].0)
}

/// The entries after setting `k` to `v`, as `BTreeMap::insert` leaves them in key order: the
/// entry for `k` is replaced, or a new one is placed before the first larger key.
pub open spec fn sorted_insert(s: Seq<(Seq<char>, Seq<char>)>, k: Seq<char>, v: Seq<char>) -> Seq<(Seq<char>, Seq<char>)>
    decreases s.len(),
{
    if s.len() == 0 {
        seq![(k, v)]
    } else if s[0].0 == k {
        s.update(0, (k, v))
    } else if str_less(k, s[0].0) {
        seq![(k, v)] + s
    } else {
        seq![s[0]] + sorted_insert(s.drop_first(), k, v)
    }
}

/// Setting a key in sorted entries, by the position of the first key not below it.
pub proof fn lemma_sorted_insert_at(s: Seq<(Seq<char>, Seq<char>)>, k: Seq<char>, v: Seq<char>, p: int)
    requires
        keys_sorted(s),
        0 <= p <= s.len(),
        forall|j: int| 0 <= j < p ==> str_less(#[trigger] s[j].0, k),
        p < s.len() ==> !str_less(s[p].0, k),
    ensures
        sorted_insert(s, k, v) == if p < s.len() && s[p].0 == k {
            s.update(p, (k, v))
        } else {
            s.insert(p, (k, v))
        },
        keys_sorted(sorted_insert(s, k, v)),
    decreases p,
{
    if p == 0 {
        if s.len() == 0 {
            assert(seq![(k, v)] =~= s.insert(0, (k, v)));
        } else if s[0].0 == k {
            let r = s.update(0, (k, v));
            assert forall|i: int, j: int| 0 <= i < j < r.len() implies str_less(#[trigger] r[i].0, #[trigger] r[j].0) by {
                assert(r[i].0 == s[i].0);
                assert(r[j].0 == s[j].0);
            }
        } else {
            lemma_str_less_total(k, s[0].0);
            let r = seq![(k, v)] + s;
            assert(r =~= s.insert(0, (k, v)));
            assert forall|i: int, j: int| 0 <= i < j < r.len() implies str_less(#[trigger] r[i].0, #[trigger] r[j].0) by {
                if i == 0 {
                    if j > 1 {
                        lemma_str_less_trans(k, s[0].0, s[j - 1].0);
                    }
                } else {
                    assert(r[i] == s[i - 1]);
                    assert(r[j] == s[j - 1]);
                }
            }
        }
    } else {
        let t = s.drop_first();
        lemma_str_less_total(s[0].0, k);
        assert forall|i: int, j: int| 0 <= i < j < t.len() implies str_less(#[trigger] t[i].0, #[trigger] t[j].0) by {
            assert(t[i] == s[i + 1]);
            assert(t[j] == s[j + 1]);
        }
        assert forall|j: int| 0 <= j < p - 1 implies str_less(#[trigger] t[j].0, k) by {
            assert(t[j] == s[j + 1]);
        }
        lemma_sorted_insert_at(t, k, v, p - 1);
        let rt = sorted_insert(t, k, v);
        let r = seq![s[0]] + rt;
        assert(sorted_insert(s, k, v) == r);
        if p < s.len() && s[p].0 == k {
            assert(r =~= s.update(p, (k, v)));
        } else {
            assert(r =~= s.insert(p, (k, v)));
        }
        assert forall|i: int, j: int| 0 <= i < j < r.len() implies str_less(#[trigger] r[i].0, #[trigger] r[j].0) by {
            if i == 0 {
                assert(r[j] == rt[j - 1]);
                if p < s.len() && s[p].0 == k {
                    assert(rt[j - 1].0 == s[j].0);
                } else {
                    if j - 1 < p - 1 {
                        assert(rt[j - 1] == t[j - 1]);
                        assert(t[j - 1] == s[j]);
                    } else if j - 1 == p - 1 {
                        assert(rt[j - 1].0 == k);
                    } else {
                        assert(rt[j - 1] == t[j - 2]);
                        assert(t[j - 2] == s[j - 1]);
                    }
                }
            } else {
                assert(r[i] == rt[i - 1]);
                assert(r[j] == rt[j - 1]);
            }
        }
    }
}

/// The path imported under `alias`, if any.
pub open spec fn import_of(s: Seq<(Seq<char>, Seq<char>)>, alias: Seq<char>) -> Option<Seq<char>>
    decreases s.len(),
{
    if s.len() == 0 {
        None
    } else if s[0].0 == alias {
        Some(s[0].1)
    } else {
        import_of(s.drop_first(), alias)
    }
}

/// Importing a module under an alias makes the alias name that module, replacing what it
/// named before, and leaves every other alias as it was.
pub proof fn lemma_use_module_lookup(
    s: Seq<(Seq<char>, Seq<char>)>,
    alias: Seq<char>,
    path: Seq<char>,
    other: Seq<char>,
)
    ensures
        import_of(sorted_insert(s, alias, path), alias) == Some(path),
        other != alias ==> import_of(sorted_insert(s, alias, path), other) == import_of(s, other),
    decreases s.len(),
{
    let r = sorted_insert(s, alias, path);
    if s.len() == 0 {
        assert(r =~= seq![(alias, path)]);
        assert(r.drop_first() =~= Seq::<(Seq<char>, Seq<char>)>::empty());
        assert(import_of(r.drop_first(), other) == None::<Seq<char>>);
    } else if s[0].0 == alias {
        assert(r =~= s.update(0, (alias, path)));
        assert(r.drop_first() =~= s.drop_first());
        assert(other != alias ==> import_of(r, other) == import_of(r.drop_first(), other));
    } else if str_less(alias, s[0].0) {
        assert(r =~= seq![(alias, path)] + s);
        assert(r.drop_first() =~= s);
        assert(other != alias ==> import_of(r, other) == import_of(r.drop_first(), other));
    } else {
        lemma_use_module_lookup(s.drop_first(), alias, path, other);
        assert(r =~= seq![s[0]] + sorted_insert(s.drop_first(), alias, path));
        assert(r.drop_first() =~= sorted_insert(s.drop_first(), alias, path));
    }
}

/// The lines that import other modules.
pub open spec fn import_lines(s: Seq<(Seq<char>, Seq<char>)>) -> Seq<char>
    decreases s.len(),
{
    if s.len() == 0 {
        Seq::empty()
    } else {
        import_lines(s.drop_last()) + "local "@ + s.last().0 + " = require(\""@ + s.last().1
            + "\")\n"@
    }
}

/// The type declarations, one per line.
pub open spec fn type_lines(s: Seq<Seq<char>>) -> Seq<char>
    decreases s.len(),
{
    if s.len() == 0 {
        Seq::empty()
    } else {
        type_lines(s.drop_last()) + s.last() + "\n"@
    }
}

/// The members of the module type, one per line.
pub open spec fn member_lines(s: Seq<(Seq<char>, Seq<char>)>) -> Seq<char>
    decreases s.len(),
{
    if s.len() == 0 {
        Seq::empty()
    } else {
        member_lines(s.drop_last()) + "    "@ + s.last().0 + ": "@ + s.last().1 + ",\n"@
    }
}

/// The type file of a module: its imports (and a blank line if there are any), its type
/// declarations, the module type with one member per function or value, and a `return` that
/// gives the module its type.
pub open spec fn type_file_text(
    name: Seq<char>,
    imports: Seq<(Seq<char>, Seq<char>)>,
    types: Seq<Seq<char>>,
    members: Seq<(Seq<char>, Seq<char>)>,
) -> Seq<char> {
    import_lines(imports) + (if imports.len() > 0 {
        "\n"@
    } else {
        Seq::empty()
    }) + type_lines(types) + "\nexport type "@ + name + "Module = {\n"@ + member_lines(members)
        + "}\n\n"@ + "return {} :: "@ + name + "Module\n"@
}

/// A module under construction: its name, its members with their Luau types, its type
/// declarations and the modules it imports, by alias.
pub struct ModuleBuilder {
    name: String,
    functions: Vec<(String, String)>,
    custom_types: Vec<String>,
    imports: Vec<(String, String)>,
}

/// The views of a list of string pairs.
pub open spec fn pair_views(v: Seq<(String, String)>) -> Seq<(Seq<char>, Seq<char>)> {
    v.map_values(|p: (String, String)| (p.0@, p.1@))
}

impl ModuleBuilder {
    /// The module's name.
    pub closed spec fn name(&self) -> Seq<char> {
        self.name@
    }

    /// The members (functions and values), with their Luau types, in the order added.
    pub closed spec fn members(&self) -> Seq<(Seq<char>, Seq<char>)> {
        pair_views(self.functions@)
    }

    /// The type declarations, in the order added.
    pub closed spec fn type_declarations(&self) -> Seq<Seq<char>> {
        self.custom_types@.map_values(|t: String| t@)
    }

    /// The imports, as (alias, path), in increasing order of alias.
    pub closed spec fn imports(&self) -> Seq<(Seq<char>, Seq<char>)> {
        pair_views(self.imports@)
    }

    /// The imports are in increasing order of alias, each alias once.
    pub closed spec fn wf(&self) -> bool {
        keys_sorted(pair_views(self.imports@))
    }

    /// An empty module called `name`.
    pub fn new(name: &str) -> (r: ModuleBuilder)
        ensures
            r.name() == name@,
            r.members() == Seq::<(Seq<char>, Seq<char>)>::empty(),
            r.type_declarations() == Seq::<Seq<char>>::empty(),
            r.imports() == Seq::<(Seq<char>, Seq<char>)>::empty(),
            r.wf(),
    {
        let r = ModuleBuilder {
            name: String::from_str(name),
            functions: Vec::new(),
            custom_types: Vec::new(),
            imports: Vec::new(),
        };
        assert(r.members() =~= Seq::<(Seq<char>, Seq<char>)>::empty());
        assert(r.type_declarations() =~= Seq::<Seq<char>>::empty());
        assert(r.imports() =~= Seq::<(Seq<char>, Seq<char>)>::empty());
        r
    }

    /// Adds a type declaration, written out as it is.
    pub fn add_type_declaration(&mut self, declaration: &str)
        requires
            old(self).wf(),
        ensures
            final(self).wf(),
            final(self).type_declarations() == old(self).type_declarations().push(declaration@),
            final(self).members() == old(self).members(),
            final(self).imports() == old(self).imports(),
            final(self).name() == old(self).name(),
    {
        self.custom_types.push(String::from_str(declaration));
        assert(final(self).type_declarations() =~= old(self).type_declarations().push(declaration@));
    }

    /// Declares a member `name` of Luau type `luau_type`.
    fn add_member(&mut self, name: &str, luau_type: &str)
        requires
            old(self).wf(),
        ensures
            final(self).wf(),
            final(self).members() == old(self).members().push((name@, luau_type@)),
            final(self).type_declarations() == old(self).type_declarations(),
            final(self).imports() == old(self).imports(),
            final(self).name() == old(self).name(),
    {
        self.functions.push((String::from_str(name), String::from_str(luau_type)));
        assert(final(self).members() =~= old(self).members().push((name@, luau_type@)));
    }

    /// Declares the function `name` of Luau type `luau_type`; the function itself is set in
    /// the module's table by the caller.
    pub fn add_function(&mut self, name: &str, luau_type: &str)
        requires
            old(self).wf(),
        ensures
            final(self).wf(),
            final(self).members() == old(self).members().push((name@, luau_type@)),
            final(self).type_declarations() == old(self).type_declarations(),
            final(self).imports() == old(self).imports(),
            final(self).name() == old(self).name(),
    {
        self.add_member(name, luau_type);
    }

    /// Declares the async function `name` of Luau type `luau_type`.
    pub fn add_async_function(&mut self, name: &str, luau_type: &str)
        requires
            old(self).wf(),
        ensures
            final(self).wf(),
            final(self).members() == old(self).members().push((name@, luau_type@)),
            final(self).type_declarations() == old(self).type_declarations(),
            final(self).imports() == old(self).imports(),
            final(self).name() == old(self).name(),
    {
        self.add_member(name, luau_type);
    }

    /// Declares the value `name` (a table, a signal) of Luau type `luau_type`.
    pub fn add_value(&mut self, name: &str, luau_type: &str)
        requires
            old(self).wf(),
        ensures
            final(self).wf(),
            final(self).members() == old(self).members().push((name@, luau_type@)),
            final(self).type_declarations() == old(self).type_declarations(),
            final(self).imports() == old(self).imports(),
            final(self).name() == old(self).name(),
    {
        self.add_member(name, luau_type);
    }

    /// Declares `T`'s shape under the type name `alias`.
    pub fn declare_struct_as<T: LuauTypeExt>(&mut self, alias: &str)
        requires
            old(self).wf(),
        ensures
            final(self).wf(),
            final(self).type_declarations() == old(self).type_declarations().push(
                "export type "@ + alias@ + " = "@ + T::declaration(),
            ),
            final(self).members() == old(self).members(),
            final(self).imports() == old(self).imports(),
            final(self).name() == old(self).name(),
    {
        let def = T::luau_definition();
        let line = String::from_str("export type ").concat(alias).concat(" = ").concat(def.as_str());
        self.custom_types.push(line);
        assert(final(self).type_declarations() =~= old(self).type_declarations().push(
            "export type "@ + alias@ + " = "@ + T::declaration(),
        ));
    }

    /// Declares `T`'s shape under its own name.
    pub fn declare_struct<T: LuauTypeExt>(&mut self)
        requires
            old(self).wf(),
        ensures
            final(self).wf(),
            final(self).type_declarations() == old(self).type_declarations().push(
                "export type "@ + T::declared_name() + " = "@ + T::declaration(),
            ),
            final(self).members() == old(self).members(),
            final(self).imports() == old(self).imports(),
            final(self).name() == old(self).name(),
    {
        let name = T::luau_name();
        self.declare_struct_as::<T>(name.as_str());
    }

    /// Imports `path` under the alias `namespace`, in order of alias; an alias imported
    /// before now names `path`.
    pub fn set_import(&mut self, namespace: &str, path: &str)
        requires
            old(self).wf(),
        ensures
            final(self).wf(),
            final(self).imports() == sorted_insert(old(self).imports(), namespace@, path@),
            keys_sorted(final(self).imports()),
            final(self).members() == old(self).members(),
            final(self).type_declarations() == old(self).type_declarations(),
            final(self).name() == old(self).name(),
    {
        let key = chars_of(namespace);
        let ghost s = pair_views(self.imports@);
        let mut p: usize = 0;
        while p < self.imports.len() && string_less(&chars_of(self.imports[p].0.as_str()), &key)
            invariant
                p <= self.imports.len(),
                s == pair_views(self.imports@),
                key@ == namespace@,
                forall|j: int| 0 <= j < p ==> str_less(#[trigger] s[j].0, namespace@),
            decreases self.imports.len() - p,
        {
            p = p + 1;
        }
        proof {
            lemma_sorted_insert_at(s, namespace@, path@, p as int);
        }
        let replace = p < self.imports.len() && {
            let here = chars_of(self.imports[p].0.as_str());
            !string_less(&here, &key) && !string_less(&key, &here)
        };
        if replace {
            proof {
                lemma_str_less_total(s[p as int].0, namespace@);
            }
            let entry = (String::from_str(namespace), String::from_str(path));
            let ghost new_s = s.update(p as int, (namespace@, path@));
            self.imports.set(p, entry);
            assert(pair_views(self.imports@) =~= new_s);
        } else {
            proof {
                if p < s.len() {
                    lemma_str_less_total(s[p as int].0, namespace@);
                }
            }
            let entry = (String::from_str(namespace), String::from_str(path));
            let ghost new_s = s.insert(p as int, (namespace@, path@));
            self.imports.insert(p, entry);
            assert(pair_views(self.imports@) =~= new_s);
        }
    }

    /// Imports the bot module `module` under the alias `namespace`: its path is `@skekbot/`
    /// and the module's name in lowercase.
    pub fn use_module(&mut self, module: &str, namespace: &str)
        requires
            old(self).wf(),
        ensures
            final(self).wf(),
            final(self).imports() == sorted_insert(
                old(self).imports(),
                namespace@,
                "@skekbot/"@ + lowercase(module@),
            ),
            keys_sorted(final(self).imports()),
            final(self).members() == old(self).members(),
            final(self).type_declarations() == old(self).type_declarations(),
            final(self).name() == old(self).name(),
    {
        let lower = to_lowercase(module);
        let path = String::from_str("@skekbot/").concat(lower.as_str());
        self.set_import(namespace, path.as_str());
    }

    /// The Luau type file that declares the module.
    pub fn type_file_content(&self) -> (r: String)
        ensures
            r@ == type_file_text(self.name(), self.imports(), self.type_declarations(), self.members()),
    {
        let mut content = String::new();
        let ghost imports = self.imports();
        let mut i: usize = 0;
        while i < self.imports.len()
            invariant
                i <= self.imports.len(),
                imports == pair_views(self.imports@),
                content@ == import_lines(imports.take(i as int)),
            decreases self.imports.len() - i,
        {
            assert(imports.take(i as int + 1).drop_last() =~= imports.take(i as int));
            content.append("local ");
            content.append(self.imports[i].0.as_str());
            content.append(" = require(\"");
            content.append(self.imports[i].1.as_str());
            content.append("\")\n");
            i = i + 1;
        }
        assert(imports.take(imports.len() as int) =~= imports);
        if self.imports.len() > 0 {
            content.append("\n");
        }
        let ghost head = content@;
        let ghost types = self.type_declarations();
        let mut j: usize = 0;
        while j < self.custom_types.len()
            invariant
                j <= self.custom_types.len(),
                types == self.custom_types@.map_values(|t: String| t@),
                content@ == head + type_lines(types.take(j as int)),
            decreases self.custom_types.len() - j,
        {
            assert(types.take(j as int + 1).drop_last() =~= types.take(j as int));
            content.append(self.custom_types[j].as_str());
            content.append("\n");
            j = j + 1;
        }
        assert(types.take(types.len() as int) =~= types);
        content.append("\nexport type ");
        content.append(self.name.as_str());
        content.append("Module = {\n");
        let ghost mid = content@;
        let ghost members = self.members();
        let mut k: usize = 0;
        while k < self.functions.len()
            invariant
                k <= self.functions.len(),
                members == pair_views(self.functions@),
                content@ == mid + member_lines(members.take(k as int)),
            decreases self.functions.len() - k,
        {
            assert(members.take(k as int + 1).drop_last() =~= members.take(k as int));
            content.append("    ");
            content.append(self.functions[k].0.as_str());
            content.append(": ");
            content.append(self.functions[k].1.as_str());
            content.append(",\n");
            k = k + 1;
        }
        assert(members.take(members.len() as int) =~= members);
        content.append("}\n\n");
        content.append("return {} :: ");
        content.append(self.name.as_str());
        content.append("Module\n");
        assert(content@ =~= type_file_text(self.name(), imports, types, members));
        content
    }

    /// The module's type file: its name (the module's name in lowercase, with `.luau`) and
    /// what it holds; writing it is left to the caller.
    pub fn emit_type_file(&self) -> (r: (String, String))
        ensures
            r.0@ == lowercase(self.name()) + ".luau"@,
            r.1@ == type_file_text(self.name(), self.imports(), self.type_declarations(), self.members()),
    {
        (to_lowercase(self.name.as_str()).concat(".luau"), self.type_file_content())
    }

    /// The key under which the module is registered for `require`: `@skekbot/` and the
    /// module's name in lowercase.
    pub fn registry_key(&self) -> (r: String)
        ensures
            r@ == "@skekbot/"@ + lowercase(self.name()),
    {
        let lower = to_lowercase(self.name.as_str());
        String::from_str("@skekbot/").concat(lower.as_str())
    }
}

} // verus!
