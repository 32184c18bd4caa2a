//! `PUT /activity`: set the bot's activity on every shard.
use vstd::prelude::*;

use crate::web::{authorize, auth_refusal, make_reply, reply_is, ApiReply};

verus! {

/// The activity types that the API accepts.
#[derive(Debug, Clone, Copy, PartialEq, Eq, Structural)]
pub enum ActivityTypeProxy {
    Playing,
    Streaming,
    Listening,
    Watching,
    Competing,
}

/// The body of a request to set the activity.
#[derive(Debug, Clone)]
pub struct SetActivityRequest {
    pub activity_type: ActivityTypeProxy,
    pub text: String,
}

/// The activity to show: its type, its text and, for streaming, the stream's URL.
#[derive(Debug, Clone)]
pub struct ActivityPlan {
    pub activity_type: ActivityTypeProxy,
    pub text: String,
    pub url: Option<String>,
}

/// The URL given to a streaming activity.
pub open spec fn stream_url() -> Seq<char> {
    "https://twitch.tv/discord"@
}

/// The activity that a request asks for.
pub open spec fn plan_is(p: ActivityPlan, req: SetActivityRequest) -> bool {
    &&& p.activity_type == req.activity_type
    &&& p.text@ == req.text@
    &&& match p.url {
        Some(u) => req.activity_type == ActivityTypeProxy::Streaming && u@ == stream_url(),
        None => req.activity_type != ActivityTypeProxy::Streaming,
    }
}

/// Checks the caller and turns the request into the activity to set; a refused caller gets
/// the authorization answer.
pub fn plan_set_activity(header: Option<&str>, password: &str, req: SetActivityRequest) -> (r: Result<ActivityPlan, ApiReply>)
    ensures
        match auth_refusal(
            match header {
                Some(h) => Some(h@),
                None => None,
            },
            password@,
        ) {
            None => r matches Ok(p) && plan_is(p, req),
            Some((status, message)) => r matches Err(e) && reply_is(e, status, false, message),
        },
{
    match authorize(header, password) {
        Err(e) => Err(e),
        Ok(()) => {
            let url = if req.activity_type == ActivityTypeProxy::Streaming {
                Some(String::from_str("https://twitch.tv/discord"))
            } else {
                None
            };
            Ok(ActivityPlan { activity_type: req.activity_type, text: req.text, url })
        },
    }
}

/// The answer once the activity was handed to the shards.
pub fn activity_set_reply() -> (r: ApiReply)
    ensures
        reply_is(r, 200, true, "Status updated successfully!"@),
{
    make_reply(200, true, "Status updated successfully!")
}

} // verus!
