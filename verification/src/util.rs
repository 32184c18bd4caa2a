//! Message sanitising and token validation.
use vstd::prelude::*;

use crate::text::{chars_of, replace_char, replace_char_with, string_of};

verus! {

/// What `@` is turned into so that it cannot ping: `@` followed by a zero-width space.
pub open spec fn ping_escape() -> Seq<char> {
    seq!['@', '\u{200B}']
}

/// `message` with a zero-width space after every `@`, so that it mentions nobody.
pub fn sanitise_pings(message: &str) -> (r: String)
    ensures
        r@ == replace_char(message@, '@', ping_escape()),
{
    let v = chars_of(message);
    let mut esc: Vec<char> = Vec::new();
    esc.push('@');
    esc.push('\u{200B}');
    assert(esc@ =~= ping_escape());
    let out = replace_char_with(&v, '@', &esc);
    string_of(&out)
}

/// Sanitised text cannot ping: every `@` in it is followed by a zero-width space.
pub proof fn lemma_sanitised_text_cannot_ping(s: Seq<char>)
    ensures
        forall|i: int|
            0 <= i < replace_char(s, '@', ping_escape()).len() && #[trigger] replace_char(
                s,
                '@',
                ping_escape(),
            )[i] == '@' ==> i + 1 < replace_char(s, '@', ping_escape()).len() && replace_char(
                s,
                '@',
                ping_escape(),
            )[i + 1] == '\u{200B}',
    decreases s.len(),
{
    if s.len() > 0 {
        lemma_sanitised_text_cannot_ping(s.drop_last());
        let prev = replace_char(s.drop_last(), '@', ping_escape());
        let tail = if s.last() == '@' {
            ping_escape()
        } else {
            seq![s.last()]
        };
        let r = replace_char(s, '@', ping_escape());
        assert(r == prev + tail);
        assert forall|i: int| 0 <= i < r.len() && #[trigger] r[i] == '@' implies i + 1 < r.len()
            && r[i + 1] == '\u{200B}' by {
            if i < prev.len() {
                assert(r[i] == prev[i]);
                assert(prev[i] == '@');
                assert(r[i + 1] == prev[i + 1]);
            } else {
                assert(r[i] == tail[i - prev.len()]);
            }
        }
    }
}

/// `s` with each occurrence of `pat`, found from left to right without overlap, replaced by
/// `to`, as `str::replace` does with a string pattern.
pub open spec fn replace_pattern(s: Seq<char>, pat: Seq<char>, to: Seq<char>) -> Seq<char>
    decreases s.len(),
{
    if s.len() == 0 {
        Seq::empty()
    } else if pat.len() > 0 && pat.len() <= s.len() && s.take(pat.len() as int) == pat {
        to + replace_pattern(s.skip(pat.len() as int), pat, to)
    } else {
        seq![s[0]] + replace_pattern(s.drop_first(), pat, to)
    }
}

/// The number of times `c` occurs in `s`.
pub open spec fn count_char(s: Seq<char>, c: char) -> nat
    decreases s.len(),
{
    if s.len() == 0 {
        0
    } else {
        count_char(s.drop_last(), c) + if s.last() == c {
            1nat
        } else {
            0nat
        }
    }
}

/// `replace_char` read from the front: the first character's replacement, then the rest.
proof fn lemma_replace_char_front(s: Seq<char>, from: char, to: Seq<char>)
    requires
        s.len() > 0,
    ensures
        replace_char(s, from, to) == (if s[0] == from {
            to
        } else {
            seq![s[0]]
        }) + replace_char(s.drop_first(), from, to),
    decreases s.len(),
{
    let head = if s[0] == from {
        to
    } else {
        seq![s[0]]
    };
    let tail = if s.last() == from {
        to
    } else {
        seq![s.last()]
    };
    if s.len() == 1 {
        assert(s.drop_last() =~= Seq::<char>::empty());
        assert(s.drop_first() =~= Seq::<char>::empty());
        assert(replace_char(s, from, to) =~= head + replace_char(s.drop_first(), from, to));
    } else {
        lemma_replace_char_front(s.drop_last(), from, to);
        assert(s.drop_first().drop_last() =~= s.drop_last().drop_first());
        assert(s.drop_first().last() == s.last());
        assert(s.drop_last()[0] == s[0]);
        let mid = replace_char(s.drop_last().drop_first(), from, to);
        assert(replace_char(s, from, to) == head + mid + tail);
        assert(replace_char(s.drop_first(), from, to) == mid + tail);
        assert(head + mid + tail =~= head + (mid + tail));
    }
}

/// Sanitising adds exactly one character per `@`, and replacing each `@` and zero-width
/// space pair by `@` gives the message back.
pub proof fn lemma_sanitised_text_round_trip(m: Seq<char>)
    ensures
        replace_pattern(replace_char(m, '@', ping_escape()), ping_escape(), seq!['@']) == m,
        replace_char(m, '@', ping_escape()).len() == m.len() + count_char(m, '@'),
    decreases m.len(),
{
    if m.len() > 0 {
        lemma_sanitised_text_round_trip(m.drop_first());
        lemma_sanitised_text_round_trip(m.drop_last());
        lemma_replace_char_front(m, '@', ping_escape());
        let rest = replace_char(m.drop_first(), '@', ping_escape());
        let r = replace_char(m, '@', ping_escape());
        if m[0] == '@' {
            assert(r == ping_escape() + rest);
            assert(r.take(2) =~= ping_escape());
            assert(r.skip(2) =~= rest);
            assert(seq!['@'] + m.drop_first() =~= m);
        } else {
            assert(r == seq![m[0]] + rest);
            assert(r[0] != ping_escape()[0]);
            assert(r.take(2) != ping_escape() || r.len() < 2) by {
                if r.len() >= 2 {
                    assert(r.take(2)[0] == r[0]);
                }
            }
            assert(r.drop_first() =~= rest);
            assert(seq![m[0]] + m.drop_first() =~= m);
        }
    }
}

/// `s` without the leading `"Bot "` prefixes that `str::trim_start_matches("Bot ")` removes.
pub open spec fn strip_bot_prefixes(s: Seq<char>) -> Seq<char>
    decreases s.len(),
{
    if s.len() >= 4 && s[0] == 'B' && s[1] == 'o' && s[2] == 't' && s[3] == ' ' {
        strip_bot_prefixes(s.skip(4))
    } else {
        s
    }
}

/// `t` splits at `'.'` into exactly three non-empty parts.
pub open spec fn three_nonempty_parts(t: Seq<char>) -> bool {
    exists|i: int, j: int|
        #![trigger t[i], t[j]]
        0 < i && i + 1 < j && j + 1 < t.len() && t[i] == '.' && t[j] == '.' && forall|k: int|
            0 <= k < t.len() && k != i && k != j ==> t[k] != '.'
}

/// The check of `serenity::utils::validate_token`: after the leading `"Bot "` prefixes,
/// the token has three non-empty parts separated by `'.'`.
pub open spec fn discord_token_shape(s: Seq<char>) -> bool {
    three_nonempty_parts(strip_bot_prefixes(s))
}

/// Calls `serenity::utils::validate_token`, whose source strips leading `"Bot "` prefixes,
/// splits at `'.'` and accepts exactly three non-empty parts; the contract states that check.
#[verifier::external_body]
fn serenity_validate_token(token: &str) -> (ok: bool)
    ensures
        ok == discord_token_shape(token@),
{
    serenity::utils::validate_token(token).is_ok()
}

/// Why a Discord token was refused.
#[derive(Debug, Clone, Copy, PartialEq, Eq)]
pub enum TokenError {
    /// No token was given.
    Missing,
    /// The token does not have the shape of a Discord token.
    Invalid,
}

impl TokenError {
    /// The text of the error, as a user reads it.
    pub open spec fn text(self) -> Seq<char> {
        match self {
            TokenError::Missing => "no token was provided"@,
            TokenError::Invalid => "an invalid token was provided"@,
        }
    }

    /// The text of the error.
    pub fn message(&self) -> (r: String)
        ensures
            r@ == self.text(),
    {
        match self {
            TokenError::Missing => String::from_str("no token was provided"),
            TokenError::Invalid => String::from_str("an invalid token was provided"),
        }
    }
}

/// Hands back the token when it is present and has the shape of a Discord token.
pub fn validate_token<'a>(token: Option<&'a str>) -> (r: Result<&'a str, TokenError>)
    ensures
        token is None ==> r == Err::<&'a str, TokenError>(TokenError::Missing),
        token matches Some(t) ==> (if discord_token_shape(t@) {
            r == Ok::<&'a str, TokenError>(t)
        } else {
            r == Err::<&'a str, TokenError>(TokenError::Invalid)
        }),
{
    match token {
        None => Err(TokenError::Missing),
        Some(t) => {
            if serenity_validate_token(t) {
                Ok(t)
            } else {
                Err(TokenError::Invalid)
            }
        },
    }
}

} // verus!
