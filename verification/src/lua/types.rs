//! Luau type declarations for the values that scripts receive.
use vstd::prelude::*;
use vstd::string::StringExecFns;

use crate::text::join_with;

verus! {

/// A named field of a table type: its name, its type (`None` when it has none, shown as
/// `any`) and whether it may be absent.
#[derive(Debug)]
pub struct LuauField {
    pub name: String,
    pub ty: Option<LuauType>,
    pub optional: bool,
}

/// The shape of a Rust type, as far as its Luau declaration goes.
#[derive(Debug)]
pub enum LuauType {
    /// `bool`
    Boolean,
    /// `char` and strings
    Str,
    /// every integer and float type
    Number,
    /// a list of the element type
    List(Box<LuauType>),
    /// a map from the key type to the value type
    Dictionary(Box<LuauType>, Box<LuauType>),
    /// a struct without fields
    Unit,
    /// a struct with named fields
    Named(Vec<LuauField>),
    /// a struct with unnamed fields (`None` where a field has no type)
    Unnamed(Vec<Option<LuauType>>),
    /// a tuple
    Tuple(Vec<LuauType>),
    /// an optional value
    Nullable(Box<LuauType>),
    /// a reference to a named type: its definition if it could be found
    Reference(Option<Box<LuauType>>),
    /// anything else
    Other,
}

/// The number of direct parts of `t` that its text lists.
pub open spec fn part_count(t: LuauType) -> nat {
    match t {
        LuauType::Named(fs) => fs@.len(),
        LuauType::Unnamed(fs) => fs@.len(),
        LuauType::Tuple(es) => es@.len(),
        _ => 0,
    }
}

/// The Luau text of a type.
pub open spec fn luau_text(t: LuauType) -> Seq<char>
    decreases t, part_count(t) + 1,
{
    match t {
        LuauType::Boolean => "boolean"@,
        LuauType::Str => "string"@,
        LuauType::Number => "number"@,
        LuauType::List(e) => "{ "@ + luau_text(*e) + " }"@,
        LuauType::Dictionary(k, v) => "{ ["@ + luau_text(*k) + "]: "@ + luau_text(*v) + " }"@,
        LuauType::Unit => "{}"@,
        LuauType::Named(fs) => "{ "@ + parts_text(t, fs@.len() as int) + "}"@,
        LuauType::Unnamed(fs) => "{ "@ + parts_text(t, fs@.len() as int) + "}"@,
        LuauType::Tuple(es) => if es@.len() == 0 {
            "nil"@
        } else {
            "{ "@ + parts_text(t, es@.len() as int) + " }"@
        },
        LuauType::Nullable(e) => luau_text(*e) + "?"@,
        LuauType::Reference(r) => match r {
            Some(e) => luau_text(*e),
            None => "any"@,
        },
        LuauType::Other => "any"@,
    }
}

/// The text of the first `n` parts of `t`: `name: type, ` (or `name?: type, `) for named
/// fields, `type,` for unnamed ones, and the types joined by `, ` for a tuple.
pub open spec fn parts_text(t: LuauType, n: int) -> Seq<char>
    decreases t, n,
{
    if n <= 0 {
        Seq::empty()
    } else {
        match t {
            LuauType::Named(fs) => if n <= fs@.len() {
                let f = fs@[n - 1];
                parts_text(t, n - 1) + f.name@ + if f.optional {
                    "?: "@
                } else {
                    ": "@
                } + match f.ty {
                    Some(ty) => luau_text(ty),
                    None => "any"@,
                } + ", "@
            } else {
                Seq::empty()
            },
            LuauType::Unnamed(fs) => if n <= fs@.len() {
                parts_text(t, n - 1) + match fs@[n - 1] {
                    Some(ty) => luau_text(ty),
                    None => "any"@,
                } + ","@
            } else {
                Seq::empty()
            },
            LuauType::Tuple(es) => if n <= es@.len() {
                if n == 1 {
                    luau_text(es@[0])
                } else {
                    parts_text(t, n - 1) + ", "@ + luau_text(es@[n - 1])
                }
            } else {
                Seq::empty()
            },
            _ => Seq::empty(),
        }
    }
}

/// The text of the first `n` elements of a tuple is their texts joined with `, `.
proof fn lemma_tuple_parts(t: LuauType, n: int)
    requires
        t is Tuple,
        1 <= n <= part_count(t),
    ensures
        parts_text(t, n) == join_with(
            t->Tuple_0@.take(n).map_values(|x: LuauType| luau_text(x)),
            ", "@,
        ),
    decreases n,
{
    let es = t->Tuple_0@;
    let ws = es.take(n).map_values(|x: LuauType| luau_text(x));
    if n == 1 {
        assert(ws.len() == 1);
        assert(ws[0] == luau_text(es[0]));
    } else {
        lemma_tuple_parts(t, n - 1);
        assert(ws.drop_last() =~= es.take(n - 1).map_values(|x: LuauType| luau_text(x)));
        assert(ws.last() == luau_text(es[n - 1]));
    }
}

/// How each kind of type is written in Luau: a list as `{ T }`, a map as `{ [K]: V }`, an
/// optional value as `T?`, the empty tuple as `nil` and another tuple as its element types
/// joined with `, ` in braces, a struct without fields as `{}`, a reference as the type it
/// names (`any` when it cannot be found), and any other type as `any`.
pub proof fn lemma_luau_text_cases(t: LuauType)
    ensures
        luau_text(t) == match t {
            LuauType::Boolean => "boolean"@,
            LuauType::Str => "string"@,
            LuauType::Number => "number"@,
            LuauType::List(e) => "{ "@ + luau_text(*e) + " }"@,
            LuauType::Dictionary(k, v) => "{ ["@ + luau_text(*k) + "]: "@ + luau_text(*v) + " }"@,
            LuauType::Unit => "{}"@,
            LuauType::Named(fs) => "{ "@ + parts_text(t, fs@.len() as int) + "}"@,
            LuauType::Unnamed(fs) => "{ "@ + parts_text(t, fs@.len() as int) + "}"@,
            LuauType::Tuple(es) => if es@.len() == 0 {
                "nil"@
            } else {
                "{ "@ + join_with(es@.map_values(|x: LuauType| luau_text(x)), ", "@) + " }"@
            },
            LuauType::Nullable(e) => luau_text(*e) + "?"@,
            LuauType::Reference(Some(e)) => luau_text(*e),
            LuauType::Reference(None) => "any"@,
            LuauType::Other => "any"@,
        },
{
    if let LuauType::Tuple(es) = t {
        if es@.len() > 0 {
            lemma_tuple_parts(t, es@.len() as int);
            assert(es@.take(es@.len() as int) =~= es@);
        }
    }
}

/// How a named field is declared: its name, `?` when it may be absent, `: `, its type
/// (`any` when it has none) and `, `.
pub open spec fn field_declaration(f: LuauField) -> Seq<char> {
    f.name@ + (if f.optional {
        seq!['?']
    } else {
        Seq::empty()
    }) + seq![':', ' '] + match f.ty {
        Some(ty) => luau_text(ty),
        None => seq!['a', 'n', 'y'],
    } + seq![',', ' ']
}

/// The declarations of the fields `fs`, one after another.
pub open spec fn field_declarations(fs: Seq<LuauField>) -> Seq<char>
    decreases fs.len(),
{
    if fs.len() == 0 {
        Seq::empty()
    } else {
        field_declarations(fs.drop_last()) + field_declaration(fs.last())
    }
}

proof fn lemma_named_parts(t: LuauType, n: int)
    requires
        t is Named,
        0 <= n <= part_count(t),
    ensures
        parts_text(t, n) == field_declarations(t->Named_0@.take(n)),
    decreases n,
{
    let fs = t->Named_0@;
    if n == 0 {
        assert(fs.take(0) =~= Seq::<LuauField>::empty());
    } else {
        lemma_named_parts(t, n - 1);
        assert(fs.take(n).drop_last() =~= fs.take(n - 1));
        reveal_strlit("?: ");
        reveal_strlit(": ");
        reveal_strlit(", ");
        reveal_strlit("any");
        let f = fs[n - 1];
        assert(f.name@ + (if f.optional { "?: "@ } else { ": "@ }) =~= f.name@ + (if f.optional {
            seq!['?']
        } else {
            Seq::empty()
        }) + seq![':', ' ']);
        assert(parts_text(t, n) =~= field_declarations(fs.take(n)));
    }
}

/// A struct with named fields is written as `{ `, then each field as its name, `?: ` when it
/// may be absent or `: ` when it may not, its type and `, `, then `}`: one optional field `n`
/// of type string gives `{ n?: string, }` and a required one `{ n: string, }`.
pub proof fn lemma_named_struct_text(fs: Vec<LuauField>)
    ensures
        luau_text(LuauType::Named(fs)) == seq!['{', ' '] + field_declarations(fs@) + seq!['}'],
{
    let t = LuauType::Named(fs);
    lemma_named_parts(t, fs@.len() as int);
    assert(fs@.take(fs@.len() as int) =~= fs@);
    reveal_strlit("{ ");
    reveal_strlit("}");
    assert(luau_text(t) =~= seq!['{', ' '] + field_declarations(fs@) + seq!['}']);
}

/// Appends the Luau text of `t` to `out`.
pub fn render_luau(t: &LuauType, out: &mut String)
    ensures
        final(out)@ == old(out)@ + luau_text(*t),
    decreases t,
{
    let ghost start = out@;
    match t {
        LuauType::Boolean => out.append("boolean"),
        LuauType::Str => out.append("string"),
        LuauType::Number => out.append("number"),
        LuauType::List(e) => {
            out.append("{ ");
            render_luau(e, out);
            out.append(" }");
            assert(out@ =~= start + luau_text(*t));
        },
        LuauType::Dictionary(k, v) => {
            out.append("{ [");
            render_luau(k, out);
            out.append("]: ");
            render_luau(v, out);
            out.append(" }");
            assert(out@ =~= start + luau_text(*t));
        },
        LuauType::Unit => out.append("{}"),
        LuauType::Named(fs) => {
            out.append("{ ");
            let ghost open = out@;
            let mut i: usize = 0;
            while i < fs.len()
                invariant
                    i <= fs.len(),
                    *t == LuauType::Named(*fs),
                    out@ == open + parts_text(*t, i as int),
                decreases fs.len() - i,
            {
                let f = &fs[i];
                assert(decreases_to!(*t => fs@[i as int]));
                out.append(f.name.as_str());
                if f.optional {
                    out.append("?: ");
                } else {
                    out.append(": ");
                }
                match &f.ty {
                    Some(ty) => {
                        assert(decreases_to!(*t => *ty));
                        render_luau(ty, out);
                    },
                    None => out.append("any"),
                }
                out.append(", ");
                i = i + 1;
                assert(out@ =~= open + parts_text(*t, i as int));
            }
            out.append("}");
            assert(out@ =~= start + luau_text(*t));
        },
        LuauType::Unnamed(fs) => {
            out.append("{ ");
            let ghost open = out@;
            let mut i: usize = 0;
            while i < fs.len()
                invariant
                    i <= fs.len(),
                    *t == LuauType::Unnamed(*fs),
                    out@ == open + parts_text(*t, i as int),
                decreases fs.len() - i,
            {
                match &fs[i] {
                    Some(ty) => {
                        assert(decreases_to!(*t => *ty));
                        render_luau(ty, out);
                    },
                    None => out.append("any"),
                }
                out.append(",");
                i = i + 1;
                assert(out@ =~= open + parts_text(*t, i as int));
            }
            out.append("}");
            assert(out@ =~= start + luau_text(*t));
        },
        LuauType::Tuple(es) => {
            if es.len() == 0 {
                out.append("nil");
            } else {
                out.append("{ ");
                let ghost open = out@;
                let mut i: usize = 0;
                while i < es.len()
                    invariant
                        i <= es.len(),
                        *t == LuauType::Tuple(*es),
                        out@ == open + parts_text(*t, i as int),
                    decreases es.len() - i,
                {
                    if i > 0 {
                        out.append(", ");
                    }
                    let e = &es[i];
                    assert(decreases_to!(*t => (*t)->Tuple_0));
                    assert(decreases_to!(*t => *e));
                    render_luau(e, out);
                    i = i + 1;
                    assert(out@ =~= open + parts_text(*t, i as int));
                }
                out.append(" }");
                assert(out@ =~= start + luau_text(*t));
            }
        },
        LuauType::Nullable(e) => {
            render_luau(e, out);
            out.append("?");
        },
        LuauType::Reference(r) => match r {
            Some(e) => render_luau(e, out),
            None => out.append("any"),
        },
        LuauType::Other => out.append("any"),
    }
}

/// The Luau text of `t`.
pub fn luau_type_text(t: &LuauType) -> (r: String)
    ensures
        r@ == luau_text(*t),
{
    let mut out = String::new();
    render_luau(t, &mut out);
    assert(out@ =~= luau_text(*t));
    out
}

/// `s` holds `::` at `p`.
pub open spec fn colons_at(s: Seq<char>, p: int) -> bool {
    0 <= p && p + 1 < s.len() && s[p] == ':' && s[p + 1] == ':'
}

/// The text after the last `::` of `s`, or all of `s` when it has none.
pub open spec fn last_path_segment(s: Seq<char>) -> Seq<char> {
    if exists|p: int| #[trigger] colons_at(s, p) {
        let p = choose|p: int|
            #[trigger] colons_at(s, p) && forall|q: int| p < q ==> !#[trigger] colons_at(s, q);
        s.skip(p + 2)
    } else {
        s
    }
}

/// The last segment of a `::`-separated path, as `str::rsplit("::").next()` gives it.
pub fn path_last_segment(path: &str) -> (r: String)
    ensures
        r@ == last_path_segment(path@),
{
    let v = crate::text::chars_of(path);
    let mut p: usize = v.len();
    while p >= 2 && !(v[p - 2] == ':' && v[p - 1] == ':')
        invariant
            p <= v.len(),
            forall|q: int| p - 1 <= q ==> !#[trigger] colons_at(v@, q),
        decreases p,
    {
        p = p - 1;
    }
    if p >= 2 {
        let ghost pp = p - 2;
        assert(colons_at(v@, pp));
        proof {
            let c = choose|q: int|
                #[trigger] colons_at(v@, q) && forall|q2: int| q < q2 ==> !#[trigger] colons_at(v@, q2);
            assert(colons_at(v@, pp) && forall|q2: int| pp < q2 ==> !#[trigger] colons_at(v@, q2));
            assert(c == pp) by {
                if c < pp {
                    assert(colons_at(v@, pp));
                } else if c > pp {
                    assert(colons_at(v@, c));
                }
            }
        }
        let rest = crate::text::slice_chars(&v, p, v.len());
        assert(rest@ =~= v@.skip(pp + 2));
        crate::text::string_of(&rest)
    } else {
        assert(forall|q: int| !#[trigger] colons_at(v@, q)) by {
            assert forall|q: int| !#[trigger] colons_at(v@, q) by {
                if q >= p - 1 {
                } else {
                    assert(!colons_at(v@, q));
                }
            }
        }
        crate::text::string_of(&v)
    }
}

/// The short name of a type: the last segment of its full path, as `rsplit("::")` gives it.
pub fn rust_type_name(full_name: &str) -> (r: String)
    ensures
        r@ == last_path_segment(full_name@),
{
    path_last_segment(full_name)
}

/// Types that have a Luau declaration.
pub trait LuauTypeExt {
    /// The name under which the type is declared.
    spec fn declared_name() -> Seq<char>;

    /// The Luau text of the type.
    spec fn declaration() -> Seq<char>;

    /// The name under which the type is declared.
    fn luau_name() -> (r: String)
        ensures
            r@ == Self::declared_name(),
    ;

    /// The Luau text of the type.
    fn luau_definition() -> (r: String)
        ensures
            r@ == Self::declaration(),
    ;
}

/// A required field with a type.
pub fn luau_field(name: &str, ty: LuauType) -> (r: LuauField)
    ensures
        r.name@ == name@,
        r.ty == Some(ty),
        !r.optional,
{
    LuauField { name: String::from_str(name), ty: Some(ty), optional: false }
}

} // verus!
