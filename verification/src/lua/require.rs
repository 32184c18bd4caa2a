//! How `require` finds a module: bot modules by name, files under the modules directory by
//! path, never outside it.
use vstd::prelude::*;
use vstd::string::StringExecFns;

use crate::text::{
    chars_of, contains_char, ends_with, has_prefix, has_suffix, replace_char, replace_char_with,
    same_text, starts_with, string_of,
};

verus! {

/// How a file module may be named from the path given to `require`.
#[derive(Debug, Clone, PartialEq, Eq)]
pub enum Candidate {
    /// The path as it is.
    Exact,
    /// The path with this extension.
    WithExtension(String),
    /// This file inside the directory that the path names.
    InitFile(String),
}

/// What `require` looks for.
#[derive(Debug, Clone)]
pub enum RequirePlan {
    /// A module of the bot (`@skekbot/...`), registered under the path itself.
    Virtual,
    /// A file under the modules directory: the path relative to it, and the names to try, in
    /// order.
    Search { relative: String, candidates: Vec<Candidate> },
}

/// The candidate adds the extension `ext`.
pub open spec fn is_extension(c: Candidate, ext: Seq<char>) -> bool {
    match c {
        Candidate::WithExtension(e) => e@ == ext,
        _ => false,
    }
}

/// The candidate is the file `name` inside the directory.
pub open spec fn is_init_file(c: Candidate, name: Seq<char>) -> bool {
    match c {
        Candidate::InitFile(f) => f@ == name,
        _ => false,
    }
}

/// The path names a file directly: it has a separator or a Luau/Lua extension.
pub open spec fn is_direct_path(p: Seq<char>) -> bool {
    p.contains('/') || p.contains('\\') || ends_with(p, ".luau"@) || ends_with(p, ".lua"@)
}

/// The plan for `require(path)`: bot modules by their `@skekbot/` name; a direct path as it
/// is; otherwise dots become slashes and the path is tried with `.luau`, with `.lua`, and as
/// a directory with `init.luau` or `init.lua`.
pub open spec fn plan_matches(path: Seq<char>, plan: RequirePlan) -> bool {
    if starts_with(path, "@skekbot/"@) {
        plan is Virtual
    } else if is_direct_path(path) {
        &&& plan matches RequirePlan::Search { relative, candidates }
        &&& relative@ == path
        &&& candidates@ == seq![Candidate::Exact]
    } else {
        &&& plan matches RequirePlan::Search { relative, candidates }
        &&& relative@ == replace_char(path, '.', seq!['/'])
        &&& candidates@.len() == 4
        &&& is_extension(candidates@[0], "luau"@)
        &&& is_extension(candidates@[1], "lua"@)
        &&& is_init_file(candidates@[2], "init.luau"@)
        &&& is_init_file(candidates@[3], "init.lua"@)
    }
}

/// A path that is not a bot module and holds a slash or a backslash, or ends in `.luau` or `.lua`,
/// names its file directly: it is searched for as it is, relative to the modules directory,
/// with the single candidate `Exact` (`helpers.luau` is looked for as `helpers.luau`).
pub proof fn lemma_direct_path_searched_as_given(p: Seq<char>, plan: RequirePlan)
    requires
        plan_matches(p, plan),
        !starts_with(p, "@skekbot/"@),
        p.contains('/') || p.contains('\\') || ends_with(p, ".luau"@) || ends_with(p, ".lua"@),
    ensures
        plan matches RequirePlan::Search { relative, candidates } && relative@ == p
            && candidates@ == seq![Candidate::Exact],
{
}

/// What `require(path)` looks for.
pub fn require_plan(path: &str) -> (r: RequirePlan)
    ensures
        plan_matches(path@, r),
{
    let p = chars_of(path);
    if has_prefix(&p, "@skekbot/") {
        return RequirePlan::Virtual;
    }
    let direct = contains_char(&p, '/') || contains_char(&p, '\\') || has_suffix(&p, ".luau")
        || has_suffix(&p, ".lua");
    if direct {
        let mut candidates: Vec<Candidate> = Vec::new();
        candidates.push(Candidate::Exact);
        assert(candidates@ =~= seq![Candidate::Exact]);
        RequirePlan::Search { relative: String::from_str(path), candidates }
    } else {
        let mut slash: Vec<char> = Vec::new();
        slash.push('/');
        assert(slash@ =~= seq!['/']);
        let relative = string_of(&replace_char_with(&p, '.', &slash));
        let mut candidates: Vec<Candidate> = Vec::new();
        candidates.push(Candidate::WithExtension(String::from_str("luau")));
        candidates.push(Candidate::WithExtension(String::from_str("lua")));
        candidates.push(Candidate::InitFile(String::from_str("init.luau")));
        candidates.push(Candidate::InitFile(String::from_str("init.lua")));
        RequirePlan::Search { relative, candidates }
    }
}

/// The error for a bot module that is not registered.
pub fn virtual_module_not_found(path: &str) -> (r: String)
    ensures
        r@ == "virtual module '"@ + path@ + "' not found"@,
{
    String::from_str("virtual module '").concat(path).concat("' not found")
}

/// The error for a file module that none of the candidates names.
pub fn module_not_found(path: &str) -> (r: String)
    ensures
        r@ == "module '"@ + path@ + "' not found"@,
{
    String::from_str("module '").concat(path).concat("' not found")
}

/// The error for a module whose path cannot be resolved.
pub fn cannot_resolve_module(path: &str, error: &str) -> (r: String)
    ensures
        r@ == "cannot resolve module '"@ + path@ + "': "@ + error@,
{
    String::from_str("cannot resolve module '").concat(path).concat("': ").concat(error)
}

/// The error for a module file that cannot be read.
pub fn cannot_open_module(path: &str, error: &str) -> (r: String)
    ensures
        r@ == "cannot open file '"@ + path@ + "': "@ + error@,
{
    String::from_str("cannot open file '").concat(path).concat("': ").concat(error)
}

/// The sandbox: a module whose resolved path is not inside the modules directory is refused.
pub fn check_sandbox(path: &str, inside_modules_dir: bool) -> (r: Result<(), String>)
    ensures
        inside_modules_dir ==> r is Ok,
        !inside_modules_dir ==> (r matches Err(e) && e@ == "access denied: module '"@ + path@
            + "' is outside the allowed modules directory"@),
{
    if inside_modules_dir {
        Ok(())
    } else {
        Err(String::from_str("access denied: module '").concat(path).concat(
            "' is outside the allowed modules directory",
        ))
    }
}

/// The chunk name of a required module: `@` and the path, so that messages show the path.
pub fn module_chunk_name(path: &str) -> (r: String)
    ensures
        r@ == "@"@ + path@,
{
    String::from_str("@").concat(path)
}

/// The chunk name of a script file: `=` and its path, or `unknown_file` when the path is not
/// text.
pub fn script_chunk_name(path: Option<&str>) -> (r: String)
    ensures
        r@ == "="@ + match path {
            Some(p) => p@,
            None => "unknown_file"@,
        },
{
    match path {
        Some(p) => String::from_str("=").concat(p),
        None => String::from_str("=").concat("unknown_file"),
    }
}

/// A script is a file with extension `luau` or `lua`.
pub fn is_script_extension(extension: Option<&str>) -> (r: bool)
    ensures
        r == match extension {
            Some(e) => e@ == "luau"@ || e@ == "lua"@,
            None => false,
        },
{
    match extension {
        Some(e) => {
            let v = chars_of(e);
            same_text(&v, "luau") || same_text(&v, "lua")
        },
        None => false,
    }
}

} // verus!
