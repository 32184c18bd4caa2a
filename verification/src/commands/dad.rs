//! `/dad`: a dad joke from the joke service, or an excuse.
use vstd::prelude::*;
use vstd::string::StringExecFns;

verus! {

/// Where the jokes come from.
pub fn dad_joke_url() -> (r: &'static str)
    ensures
        r@ == "https://api.gurkz.me/api/dad-joke"@,
{
    "https://api.gurkz.me/api/dad-joke"
}

/// The reply: the joke when one came back, else the excuse.
pub fn dad_command_reply(joke: Option<&str>) -> (r: String)
    ensures
        match joke {
            Some(j) => r@ == "here's one: "@ + j@,
            None => r@ == "the dad joke was so bad that i'm not even going to say it..."@,
        },
{
    match joke {
        Some(j) => String::from_str("here's one: ").concat(j),
        None => String::from_str("the dad joke was so bad that i'm not even going to say it..."),
    }
}

} // verus!
