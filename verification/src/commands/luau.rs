//! `/reload` and `/list_loaded_scripts`: their replies.
use vstd::prelude::*;
use vstd::string::StringExecFns;

use crate::text::{
    byte_len, byte_len_of_prefix, char_index_at_byte, char_index_of_byte, chars_of, join_strings,
    join_with, lemma_ascii_byte_len, lemma_byte_len_concat, slice_chars, string_of, string_views,
};

verus! {

/// The reply to `/reload`.
pub fn reload_reply(result: Result<(), &str>) -> (r: String)
    ensures
        match result {
            Ok(()) => r@ == "scripts reloaded successfully!"@,
            Err(e) => r@ == "reload failed: "@ + e@,
        },
{
    match result {
        Ok(()) => String::from_str("scripts reloaded successfully!"),
        Err(e) => String::from_str("reload failed: ").concat(e),
    }
}

/// The reply when the loaded scripts could not be listed.
pub fn list_failed_reply(error: &str) -> (r: String)
    ensures
        r@ == "failed to get loaded scripts: "@ + error@,
{
    String::from_str("failed to get loaded scripts: ").concat(error)
}

/// The longest reply Discord takes, in bytes.
pub const REPLY_LIMIT: usize = 2000;

/// Where a reply over the limit is cut, in bytes, to leave room for the ellipsis.
pub const REPLY_CUT: usize = 1996;

/// The listing of the executed scripts and the cached modules, each in a code block under
/// its heading, the sections without entries left out.
pub open spec fn listing(scripts: Seq<Seq<char>>, modules: Seq<Seq<char>>) -> Seq<char> {
    (if scripts.len() > 0 {
        "**executed scripts:**\n```\n"@ + join_with(scripts, "\n"@) + "\n\n```\n"@
    } else {
        Seq::empty()
    }) + (if modules.len() > 0 {
        "**cached modules (`require`):**\n```\n"@ + join_with(modules, "\n"@) + "\n\n```"@
    } else {
        Seq::empty()
    })
}

/// A reply over the limit is cut after `REPLY_CUT` bytes, and an ellipsis closes it.
pub open spec fn limited(s: Seq<char>) -> Seq<char> {
    if byte_len(s) > REPLY_LIMIT {
        s.take(char_index_at_byte(s, REPLY_CUT as int).unwrap()) + "...`"@
    } else {
        s
    }
}

/// Cutting `s` would split a character: it is over the limit and no character ends at the
/// cut.
pub open spec fn cut_splits_char(s: Seq<char>) -> bool {
    byte_len(s) > REPLY_LIMIT && char_index_at_byte(s, REPLY_CUT as int) is None
}

/// The reply to `/list_loaded_scripts`.
pub open spec fn list_reply_spec(scripts: Seq<Seq<char>>, modules: Seq<Seq<char>>) -> Seq<char> {
    if scripts.len() == 0 && modules.len() == 0 {
        "no scripts are currently loaded"@
    } else {
        limited(listing(scripts, modules))
    }
}

/// The listing before it is cut to the limit.
pub fn loaded_scripts_listing(scripts: &Vec<String>, modules: &Vec<String>) -> (r: String)
    ensures
        r@ == listing(string_views(scripts@), string_views(modules@)),
{
    let mut response = String::new();
    if scripts.len() > 0 {
        response.append("**executed scripts:**\n```\n");
        response.append(join_strings(scripts, "\n").as_str());
        response.append("\n\n```\n");
    }
    if modules.len() > 0 {
        response.append("**cached modules (`require`):**\n```\n");
        response.append(join_strings(modules, "\n").as_str());
        response.append("\n\n```");
    }
    assert(response@ =~= listing(string_views(scripts@), string_views(modules@)));
    response
}

/// Whether the listing would have to be cut inside a character.
pub fn list_reply_splits_char(scripts: &Vec<String>, modules: &Vec<String>) -> (r: bool)
    ensures
        r == cut_splits_char(listing(string_views(scripts@), string_views(modules@))),
{
    let v = chars_of(loaded_scripts_listing(scripts, modules).as_str());
    assert(v@.take(v.len() as int) =~= v@);
    byte_len_of_prefix(&v, v.len()) > 2000 && char_index_of_byte(&v, 1996).is_none()
}

/// The reply to `/list_loaded_scripts`: the listing, cut to the limit, or a note that
/// nothing is loaded.
pub fn list_loaded_scripts_reply(scripts: &Vec<String>, modules: &Vec<String>) -> (r: String)
    requires
        !cut_splits_char(listing(string_views(scripts@), string_views(modules@))),
    ensures
        r@ == list_reply_spec(string_views(scripts@), string_views(modules@)),
{
    if scripts.len() == 0 && modules.len() == 0 {
        return String::from_str("no scripts are currently loaded");
    }
    let response = loaded_scripts_listing(scripts, modules);
    let v = chars_of(response.as_str());
    assert(v@.take(v.len() as int) =~= v@);
    if byte_len_of_prefix(&v, v.len()) > 2000 {
        let k = char_index_of_byte(&v, 1996).unwrap();
        let kept = slice_chars(&v, 0, k);
        assert(kept@ =~= v@.take(k as int));
        string_of(&kept).concat("...`")
    } else {
        response
    }
}

/// Every reply to `/list_loaded_scripts` fits in a Discord message: a listing over the limit
/// is cut so that, with its ellipsis, it is exactly `REPLY_LIMIT` bytes long.
pub proof fn lemma_list_reply_fits(scripts: Seq<Seq<char>>, modules: Seq<Seq<char>>)
    requires
        !cut_splits_char(listing(scripts, modules)),
    ensures
        byte_len(list_reply_spec(scripts, modules)) <= REPLY_LIMIT,
{
    reveal_strlit("no scripts are currently loaded");
    reveal_strlit("...`");
    lemma_ascii_byte_len("no scripts are currently loaded"@);
    lemma_ascii_byte_len("...`"@);
    let s = listing(scripts, modules);
    if byte_len(s) > REPLY_LIMIT {
        let k = char_index_at_byte(s, REPLY_CUT as int).unwrap();
        lemma_byte_len_concat(s.take(k), "...`"@);
    }
}

} // verus!
