//! `POST /send-message`: send a message, possibly as a reply, to a channel.
use vstd::prelude::*;
use vstd::string::StringExecFns;

use crate::text::{chars_of, parse_u64, parse_u64_spec};
use crate::web::{authorize, auth_refusal, make_reply, reply_is, ApiReply, ApiResponse};

verus! {

/// The body of a request to send a message.
#[derive(Debug, Clone)]
pub struct MessageRequest {
    pub channel_id: String,
    pub message: String,
    pub reply_to_id: Option<String>,
}

/// The message to send: where, in answer to which message, and what.
#[derive(Debug, Clone)]
pub struct SendPlan {
    pub channel_id: u64,
    pub reply_to: Option<u64>,
    pub content: String,
}

/// The header as text, if there is one.
pub open spec fn header_view(header: Option<&str>) -> Option<Seq<char>> {
    match header {
        Some(h) => Some(h@),
        None => None,
    }
}

/// What a send request comes to: the refusal (status and message) or the plan's channel
/// and reply target. A channel id or reply id that is not a number, or is 0 (which no Discord
/// id can be), is a bad request.
pub open spec fn send_decision(header: Option<Seq<char>>, password: Seq<char>, req: MessageRequest) -> Result<(u64, Option<u64>), (u16, Seq<char>)> {
    match auth_refusal(header, password) {
        Some(refusal) => Err(refusal),
        None => match parse_u64_spec(req.channel_id@) {
            None => Err((400, "Invalid channel ID format"@)),
            Some(channel) => if channel == 0 {
                Err((400, "Invalid channel ID format"@))
            } else {
                match req.reply_to_id {
                    None => Ok((channel, None)),
                    Some(reply) => match parse_u64_spec(reply@) {
                        None => Err((400, "Invalid replyToId format"@)),
                        Some(id) => if id == 0 {
                            Err((400, "Invalid replyToId format"@))
                        } else {
                            Ok((channel, Some(id)))
                        },
                    },
                }
            },
        },
    }
}

/// Checks the caller and the ids, and turns the request into the message to send.
pub fn plan_send_message(header: Option<&str>, password: &str, req: MessageRequest) -> (r: Result<SendPlan, ApiReply>)
    ensures
        match send_decision(header_view(header), password@, req) {
            Ok((channel, reply)) => r matches Ok(p) && p.channel_id == channel && p.reply_to
                == reply && p.content@ == req.message@,
            Err((status, message)) => r matches Err(e) && reply_is(e, status, false, message),
        },
{
    if let Err(e) = authorize(header, password) {
        return Err(e);
    }
    let channel = match parse_u64(&chars_of(req.channel_id.as_str())) {
        Some(c) if c != 0 => c,
        _ => return Err(make_reply(400, false, "Invalid channel ID format")),
    };
    let reply_to = match &req.reply_to_id {
        None => None,
        Some(reply) => match parse_u64(&chars_of(reply.as_str())) {
            Some(id) if id != 0 => Some(id),
            _ => return Err(make_reply(400, false, "Invalid replyToId format")),
        },
    };
    Ok(SendPlan { channel_id: channel, reply_to, content: req.message })
}

/// The answer once Discord replied: 200 "Success!", or 500 with Discord's error text.
pub fn send_result_reply(result: Result<(), String>) -> (r: ApiReply)
    ensures
        match result {
            Ok(()) => reply_is(r, 200, true, "Success!"@),
            Err(e) => reply_is(r, 500, false, "Discord Error: "@ + e@),
        },
{
    match result {
        Ok(()) => make_reply(200, true, "Success!"),
        Err(e) => ApiReply {
            status: 500,
            body: ApiResponse {
                success: false,
                message: String::from_str("Discord Error: ").concat(e.as_str()),
            },
        },
    }
}

} // verus!
