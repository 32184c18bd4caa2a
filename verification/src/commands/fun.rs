//! `/8ball`: the magic 8 ball's answers and its reply.
use vstd::prelude::*;
use vstd::string::StringExecFns;

use crate::random::choose_one;

verus! {

/// What the magic 8 ball can answer.
pub open spec fn is_eight_ball_answer(a: Seq<char>) -> bool {
    ||| a == "test"@
    ||| a == "i forgot what the answers were"@
    ||| a == "test 2"@
    ||| a == "ill fix this later"@
}

/// One of the answers, picked at random.
pub fn eight_ball_answer() -> (r: &'static str)
    ensures
        is_eight_ball_answer(r@),
{
    let answers: [&'static str; 4] = [
        "test",
        "i forgot what the answers were",
        "test 2",
        "ill fix this later",
    ];
    let picked = choose_one(&answers);
    assert(answers@.len() == 4);
    let a = picked.unwrap();
    assert(answers@.contains(a));
    proof {
        let i = choose|i: int| 0 <= i < answers@.len() && answers@[i] == a;
        assert(i == 0 || i == 1 || i == 2 || i == 3);
    }
    a
}

/// What the 8 ball shows while it is shaken.
pub fn eight_ball_shaking() -> (r: &'static str)
    ensures
        r@ == "🎱 Shaking the magic 8 ball..."@,
{
    "🎱 Shaking the magic 8 ball..."
}

/// The final reply: who asked (their name in the server, else their user name), the
/// question, and the answer on the next line.
pub fn eight_ball_reply(member_name: Option<&str>, user_name: &str, question: &str, answer: &str) -> (r: String)
    ensures
        r@ == "**"@ + match member_name {
            Some(m) => m@,
            None => user_name@,
        } + " asks:** "@ + question@ + "\n"@ + answer@,
{
    let author = match member_name {
        Some(m) => m,
        None => user_name,
    };
    String::from_str("**").concat(author).concat(" asks:** ").concat(question).concat("\n").concat(answer)
}

} // verus!
