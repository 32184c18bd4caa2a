//! `@skekbot/rest`: the ids that scripts hand over, read back as numbers.
use vstd::prelude::*;
use vstd::string::StringExecFns;

use crate::lua::builder::{sorted_insert, ModuleBuilder};
use crate::lua::modules::types::LuaMessage;
use crate::text::{chars_of, decimal, lemma_decimal_parses_back, lowercase, parse_u64, parse_u64_spec};

verus! {

/// The id written in `text`, or `error` when `str::parse::<u64>` refuses it.
pub open spec fn id_arg_spec(text: Seq<char>, error: Seq<char>) -> Result<u64, Seq<char>> {
    match parse_u64_spec(text) {
        Some(n) => Ok(n),
        None => Err(error),
    }
}

/// A result with its error taken by view.
pub open spec fn result_view<T>(r: Result<T, String>) -> Result<T, Seq<char>> {
    match r {
        Ok(v) => Ok(v),
        Err(e) => Err(e@),
    }
}

/// Reads the id in `text`, failing with `error`.
pub fn id_arg(text: &str, error: &str) -> (r: Result<u64, String>)
    ensures
        result_view(r) == id_arg_spec(text@, error@),
{
    match parse_u64(&chars_of(text)) {
        Some(n) => Ok(n),
        None => Err(String::from_str(error)),
    }
}

/// The error for a channel id that is not a number.
pub open spec fn bad_channel_id() -> Seq<char> {
    "invalid channel id: must be a numeric string"@
}

/// The error for a message id that is not a number.
pub open spec fn bad_message_id() -> Seq<char> {
    "invalid message id: must be a numeric string"@
}

/// The channel that `sendMessage` writes to.
pub fn channel_id_arg(text: &str) -> (r: Result<u64, String>)
    ensures
        result_view(r) == id_arg_spec(text@, bad_channel_id()),
{
    id_arg(text, "invalid channel id: must be a numeric string")
}

/// The channel and the message that `replyToMessage` answers: the channel id is read first.
pub open spec fn reply_target_spec(channel_id: Seq<char>, message_id: Seq<char>) -> Result<(u64, u64), Seq<char>> {
    match parse_u64_spec(channel_id) {
        None => Err(bad_channel_id()),
        Some(c) => match parse_u64_spec(message_id) {
            None => Err(bad_message_id()),
            Some(m) => Ok((c, m)),
        },
    }
}

/// The channel and the message that `replyToMessage` answers.
pub fn reply_target(message: &LuaMessage) -> (r: Result<(u64, u64), String>)
    ensures
        result_view(r) == reply_target_spec(message.channel_id@, message.id@),
{
    let channel = match id_arg(message.channel_id.as_str(), "invalid channel id: must be a numeric string") {
        Ok(c) => c,
        Err(e) => return Err(e),
    };
    match id_arg(message.id.as_str(), "invalid message id: must be a numeric string") {
        Ok(m) => Ok((channel, m)),
        Err(e) => Err(e),
    }
}

/// A message that the bot handed to a script can always be answered: its ids, written in
/// decimal, read back as the channel and the message they came from.
pub proof fn lemma_reply_to_event_message(m: LuaMessage, id: u64, channel_id: u64)
    requires
        m.id@ == decimal(id as nat),
        m.channel_id@ == decimal(channel_id as nat),
    ensures
        reply_target_spec(m.channel_id@, m.id@) == Ok::<(u64, u64), Seq<char>>((channel_id, id)),
{
    lemma_decimal_parses_back(id);
    lemma_decimal_parses_back(channel_id);
}


/// The declarations of `@skekbot/rest`: it imports `Types` and has `sendMessage` and
/// `replyToMessage`.
pub fn setup() -> (r: ModuleBuilder)
    ensures
        r.wf(),
        r.name() == "Rest"@,
        r.imports() == seq![("Types"@, "@skekbot/"@ + lowercase("types"@))],
        r.type_declarations() == Seq::<Seq<char>>::empty(),
        r.members() == seq![
            ("sendMessage"@, "(channel_id: string, content: string) -> ()"@),
            ("replyToMessage"@, "(message: Types.Message, content: string) -> ()"@),
        ],
{
    let mut b = ModuleBuilder::new("Rest");
    b.use_module("types", "Types");
    b.add_async_function("sendMessage", "(channel_id: string, content: string) -> ()");
    b.add_async_function("replyToMessage", "(message: Types.Message, content: string) -> ()");
    assert(sorted_insert(Seq::empty(), "Types"@, "@skekbot/"@ + lowercase("types"@)) =~= seq![
        ("Types"@, "@skekbot/"@ + lowercase("types"@)),
    ]);
    assert(b.members() =~= seq![
        ("sendMessage"@, "(channel_id: string, content: string) -> ()"@),
        ("replyToMessage"@, "(message: Types.Message, content: string) -> ()"@),
    ]);
    b
}

} // verus!
