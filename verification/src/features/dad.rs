//! The "Hi hungry, I'm dad" joke: finding the name after "I'm" in a message.
use vstd::prelude::*;

use crate::text::{
    byte_len, byte_len_of_prefix, char_index_at_byte, char_index_of_byte, chars_of, is_whitespace,
    is_ws, occurs_at, opt_int, opt_view, slice_chars, string_of, to_lowercase, lowercase,
    trim, trim_chars, trim_end, trim_start, trim_start_chars,
};
use crate::util::{ping_escape, sanitise_pings};

verus! {

/// The phrases that introduce a name, in the order they are tried.
pub open spec fn im_triggers() -> Seq<Seq<char>> {
    seq![seq!['i', 'm'], seq!['i', '\'', 'm'], seq!['i', '\u{2019}', 'm'], seq!['i', ' ', 'a', 'm']]
}

/// The characters at which the name ends.
pub open spec fn is_delimiter(c: char) -> bool {
    c == '.' || c == ',' || c == '\n' || c == '!' || c == '?'
}

/// The longest name, in characters, that the joke repeats.
pub const MAX_LENGTH: usize = 75;

/// `t` stands in `l` at `i` as a word of its own: it starts the text or follows whitespace,
/// and ends the text or is followed by whitespace.
pub open spec fn trigger_at(l: Seq<char>, i: int, t: Seq<char>) -> bool {
    &&& 0 <= i
    &&& i + t.len() <= l.len()
    &&& l.subrange(i, i + t.len()) == t
    &&& (i == 0 || is_ws(l[i - 1]))
    &&& (i + t.len() == l.len() || is_ws(l[i + t.len()]))
}

/// Where the name would start after a trigger at `i`; later triggers in the list win.
pub open spec fn trigger_end_at(l: Seq<char>, i: int) -> Option<int> {
    let t = im_triggers();
    if trigger_at(l, i, t[3]) {
        Some(i + 4)
    } else if trigger_at(l, i, t[2]) {
        Some(i + 3)
    } else if trigger_at(l, i, t[1]) {
        Some(i + 3)
    } else if trigger_at(l, i, t[0]) {
        Some(i + 2)
    } else {
        None
    }
}

/// The end of the last trigger that starts before index `n`.
pub open spec fn last_trigger_end(l: Seq<char>, n: int) -> Option<int>
    decreases n,
{
    if n <= 0 {
        None
    } else {
        match trigger_end_at(l, n - 1) {
            Some(e) => Some(e),
            None => last_trigger_end(l, n - 1),
        }
    }
}

/// The index of the first delimiter in `r` at or after `i`, or the length of `r`.
pub open spec fn delimiter_index(r: Seq<char>, i: int) -> int
    decreases r.len() - i,
{
    if i >= r.len() {
        r.len() as int
    } else if is_delimiter(r[i]) {
        i
    } else {
        delimiter_index(r, i + 1)
    }
}

/// The name that follows character index `k` of the trimmed message `c`.
pub open spec fn name_after(c: Seq<char>, k: int) -> Option<Seq<char>> {
    let rest = trim_start(c.skip(k));
    if rest.len() == 0 {
        None
    } else {
        let result = trim(rest.take(delimiter_index(rest, 0)));
        if result.len() == 0 {
            None
        } else {
            let cut = if result.len() <= MAX_LENGTH {
                result
            } else {
                result.take(MAX_LENGTH as int)
            };
            let name = trim(cut);
            if name.len() == 0 {
                None
            } else {
                Some(name)
            }
        }
    }
}

/// The name after the last "im", "i'm", "i’m" or "i am" word of the trimmed message `c`,
/// given `l`, the lowercase form of `c` in which the trigger is sought. The position in `l`
/// is carried over to `c` by its byte offset; `None` also where that offset is not a
/// character boundary of `c`.
pub open spec fn dad_name_spec(c: Seq<char>, l: Seq<char>) -> Option<Seq<char>> {
    match last_trigger_end(l, l.len() as int) {
        None => None,
        Some(e) => match char_index_at_byte(c, byte_len(l.take(e)) as int) {
            None => None,
            Some(k) => name_after(c, k),
        },
    }
}

/// The trigger's byte offset in `l` falls inside a character of `c`.
pub open spec fn dad_name_offset_lost(c: Seq<char>, l: Seq<char>) -> bool {
    match last_trigger_end(l, l.len() as int) {
        None => false,
        Some(e) => char_index_at_byte(c, byte_len(l.take(e)) as int) is None,
    }
}

fn trigger_matches(l: &Vec<char>, i: usize, t: &Vec<char>) -> (r: bool)
    requires
        i < l.len(),
    ensures
        r == trigger_at(l@, i as int, t@),
{
    if !occurs_at(l, i, t) {
        return false;
    }
    let before_ok = i == 0 || is_whitespace(l[i - 1]);
    let after = i + t.len();
    before_ok && (after == l.len() || is_whitespace(l[after]))
}

fn trigger_end(l: &Vec<char>, i: usize, triggers: &Vec<Vec<char>>) -> (r: Option<usize>)
    requires
        triggers@.len() == 4,
        forall|j: int| 0 <= j < 4 ==> #[trigger] triggers@[j]@ == im_triggers()[j],
        i < l.len(),
    ensures
        opt_int(r) == trigger_end_at(l@, i as int),
{
    assert(triggers@[3]@ == im_triggers()[3]);
    assert(triggers@[2]@ == im_triggers()[2]);
    assert(triggers@[1]@ == im_triggers()[1]);
    assert(triggers@[0]@ == im_triggers()[0]);
    if trigger_matches(l, i, &triggers[3]) {
        Some(i + 4)
    } else if trigger_matches(l, i, &triggers[2]) {
        Some(i + 3)
    } else if trigger_matches(l, i, &triggers[1]) {
        Some(i + 3)
    } else if trigger_matches(l, i, &triggers[0]) {
        Some(i + 2)
    } else {
        None
    }
}

fn im_trigger_words() -> (r: Vec<Vec<char>>)
    ensures
        r@.len() == 4,
        forall|j: int| 0 <= j < 4 ==> #[trigger] r@[j]@ == im_triggers()[j],
{
    let mut r: Vec<Vec<char>> = Vec::new();
    r.push(vec!['i', 'm']);
    r.push(vec!['i', '\'', 'm']);
    r.push(vec!['i', '\u{2019}', 'm']);
    r.push(vec!['i', ' ', 'a', 'm']);
    assert(r@[0]@ =~= im_triggers()[0]);
    assert(r@[1]@ =~= im_triggers()[1]);
    assert(r@[2]@ =~= im_triggers()[2]);
    assert(r@[3]@ =~= im_triggers()[3]);
    r
}

/// The end of the last trigger word in `l`.
fn find_last_trigger_end(l: &Vec<char>) -> (r: Option<usize>)
    ensures
        opt_int(r) == last_trigger_end(l@, l.len() as int),
        r matches Some(e) ==> e <= l.len(),
{
    let triggers = im_trigger_words();
    let mut found: Option<usize> = None;
    let mut i: usize = 0;
    while i < l.len()
        invariant
            i <= l.len(),
            triggers@.len() == 4,
            forall|j: int| 0 <= j < 4 ==> #[trigger] triggers@[j]@ == im_triggers()[j],
            opt_int(found) == last_trigger_end(l@, i as int),
            found matches Some(e) ==> e <= l.len(),
        decreases l.len() - i,
    {
        let here = trigger_end(l, i, &triggers);
        if here.is_some() {
            found = here;
        }
        i = i + 1;
    }
    found
}

/// The prefix of `r` before its first delimiter.
fn before_delimiter(r: &Vec<char>) -> (out: Vec<char>)
    ensures
        out@ == r@.take(delimiter_index(r@, 0)),
{
    let mut p: usize = 0;
    while p < r.len() && !(r[p] == '.' || r[p] == ',' || r[p] == '\n' || r[p] == '!' || r[p] == '?')
        invariant
            p <= r.len(),
            delimiter_index(r@, 0) == delimiter_index(r@, p as int),
        decreases r.len() - p,
    {
        p = p + 1;
    }
    proof {
        assert(delimiter_index(r@, p as int) == p);
    }
    let out = slice_chars(r, 0, p);
    assert(out@ =~= r@.take(p as int));
    out
}

/// The name that follows character index `k` of the trimmed message `c`.
fn name_after_index(c: &Vec<char>, k: usize) -> (r: Option<Vec<char>>)
    requires
        k <= c.len(),
    ensures
        match r {
            Some(v) => name_after(c@, k as int) == Some(v@),
            None => name_after(c@, k as int) is None,
        },
{
    let tail = slice_chars(c, k, c.len());
    assert(tail@ =~= c@.skip(k as int));
    let rest = trim_start_chars(&tail);
    if rest.len() == 0 {
        return None;
    }
    let part = before_delimiter(&rest);
    let result = trim_chars(&part);
    if result.len() == 0 {
        return None;
    }
    let cut = if result.len() <= MAX_LENGTH {
        slice_chars(&result, 0, result.len())
    } else {
        slice_chars(&result, 0, MAX_LENGTH)
    };
    assert(result.len() <= MAX_LENGTH ==> cut@ =~= result@);
    assert(result.len() > MAX_LENGTH ==> cut@ =~= result@.take(MAX_LENGTH as int));
    let name = trim_chars(&cut);
    if name.len() == 0 {
        None
    } else {
        Some(name)
    }
}

/// The name to greet in the trimmed message `content`, given `lower`, its lowercase form.
/// `requires` leaves out the messages where the trigger's byte offset in `lower` is not a
/// character boundary of `content`.
pub fn dad_joke_name_in(content: &Vec<char>, lower: &Vec<char>) -> (r: Option<String>)
    requires
        !dad_name_offset_lost(content@, lower@),
    ensures
        opt_view(r) == dad_name_spec(content@, lower@),
{
    let end = match find_last_trigger_end(lower) {
        None => return None,
        Some(e) => e,
    };
    let b = byte_len_of_prefix(lower, end);
    let k = match char_index_of_byte(content, b) {
        None => return None,
        Some(k) => k,
    };
    proof {
        let kk = choose|k2: int| 0 <= k2 <= content@.len() && byte_len(content@.take(k2)) == b;
        assert(kk == k as int);
    }
    match name_after_index(content, k) {
        None => None,
        Some(v) => Some(string_of(&v)),
    }
}

/// The name that the dad joke greets in `content`: the text after the last "im", "i'm",
/// "i’m" or "i am" word, up to the first `.`, `,`, newline, `!` or `?`, trimmed and cut to
/// 75 characters. `requires` leaves out the messages in which the trigger, found in the
/// lowercase message, ends at a byte offset that is not a character boundary of the message
/// (`dad_name_would_fail` tells them).
pub fn get_dad_joke_name(content: &str) -> (r: Option<String>)
    requires
        !dad_name_offset_lost(trim(content@), lowercase(trim(content@))),
    ensures
        opt_view(r) == dad_name_spec(trim(content@), lowercase(trim(content@))),
{
    let trimmed = trim_chars(&chars_of(content));
    let lower = chars_of(to_lowercase(string_of(&trimmed).as_str()).as_str());
    dad_joke_name_in(&trimmed, &lower)
}

/// Whether the trigger in `content` ends at a byte offset of its lowercase form that falls
/// inside a character of `content` (or past its end), where the name cannot be cut out.
pub fn dad_name_would_fail(content: &str) -> (r: bool)
    ensures
        r == dad_name_offset_lost(trim(content@), lowercase(trim(content@))),
{
    let trimmed = trim_chars(&chars_of(content));
    let lower = chars_of(to_lowercase(string_of(&trimmed).as_str()).as_str());
    match find_last_trigger_end(&lower) {
        None => false,
        Some(end) => char_index_of_byte(&trimmed, byte_len_of_prefix(&lower, end)).is_none(),
    }
}

/// The greeting that answers `content` with `bot_name`, if the joke applies: the author is not
/// a bot, the server (if any) has the joke enabled, and the message holds a name that can be
/// cut out (`None` for a message that `dad_name_would_fail` tells).
pub fn dad_joke_reply(author_is_bot: bool, server_dad_enabled: Option<bool>, content: &str, bot_name: &str) -> (r: Option<String>)
    ensures
        r is Some <==> !author_is_bot && server_dad_enabled != Some(false) && dad_name_spec(
            trim(content@),
            lowercase(trim(content@)),
        ) is Some,
        r matches Some(text) ==> text@ == "Hi "@ + crate::text::replace_char(
            dad_name_spec(trim(content@), lowercase(trim(content@)))->0,
            '@',
            ping_escape(),
        ) + ", I'm "@ + bot_name@ + "!"@,
        dad_name_offset_lost(trim(content@), lowercase(trim(content@))) ==> r is None,
{
    if author_is_bot {
        return None;
    }
    if server_dad_enabled == Some(false) {
        return None;
    }
    if dad_name_would_fail(content) {
        return None;
    }
    let name = match get_dad_joke_name(content) {
        None => return None,
        Some(n) => n,
    };
    let safe = sanitise_pings(name.as_str());
    let mut out = String::from_str("Hi ");
    out.append(safe.as_str());
    out.append(", I'm ");
    out.append(bot_name);
    out.append("!");
    Some(out)
}

/// `s` holds none of the characters at which a name ends.
pub open spec fn no_delimiter(s: Seq<char>) -> bool {
    forall|i: int| 0 <= i < s.len() ==> !is_delimiter(#[trigger] s[i])
}

proof fn lemma_trim_start_shape(s: Seq<char>)
    ensures
        trim_start(s).len() <= s.len(),
        no_delimiter(s) ==> no_delimiter(trim_start(s)),
        trim_start(s).len() > 0 ==> !is_ws(trim_start(s)[0]),
    decreases s.len(),
{
    if s.len() > 0 && is_ws(s[0]) {
        lemma_trim_start_shape(s.drop_first());
        if no_delimiter(s) {
            assert forall|i: int| 0 <= i < s.drop_first().len() implies !is_delimiter(
                #[trigger] s.drop_first()[i],
            ) by {
                assert(s.drop_first()[i] == s[i + 1]);
            }
        }
    }
}

proof fn lemma_trim_end_shape(s: Seq<char>)
    ensures
        trim_end(s) == s.take(trim_end(s).len() as int),
        trim_end(s).len() <= s.len(),
        trim_end(s).len() > 0 ==> !is_ws(trim_end(s).last()),
    decreases s.len(),
{
    if s.len() > 0 && is_ws(s.last()) {
        lemma_trim_end_shape(s.drop_last());
        let t = trim_end(s.drop_last());
        assert(s.drop_last().take(t.len() as int) =~= s.take(t.len() as int));
    } else {
        assert(s.take(s.len() as int) =~= s);
    }
}

proof fn lemma_trim_shape(s: Seq<char>)
    ensures
        trim(s).len() <= s.len(),
        no_delimiter(s) ==> no_delimiter(trim(s)),
        trim(s).len() > 0 ==> !is_ws(trim(s)[0]) && !is_ws(trim(s).last()),
{
    let t = trim_start(s);
    lemma_trim_start_shape(s);
    lemma_trim_end_shape(t);
    let r = trim_end(t);
    assert(r == t.take(r.len() as int));
    if no_delimiter(s) {
        assert forall|i: int| 0 <= i < r.len() implies !is_delimiter(#[trigger] r[i]) by {
            assert(r[i] == t[i]);
        }
    }
    if r.len() > 0 {
        assert(r[0] == t[0]);
    }
}

proof fn lemma_delimiter_index(r: Seq<char>, i: int)
    requires
        0 <= i,
    ensures
        i <= r.len() ==> i <= delimiter_index(r, i) <= r.len(),
        forall|j: int| i <= j < delimiter_index(r, i) ==> !is_delimiter(#[trigger] r[j]),
    decreases r.len() - i,
{
    if i < r.len() && !is_delimiter(r[i]) {
        lemma_delimiter_index(r, i + 1);
    }
}

proof fn lemma_delimiter_index_at(r: Seq<char>, i: int, d: int)
    requires
        0 <= i <= d <= r.len(),
        forall|j: int| i <= j < d ==> !is_delimiter(#[trigger] r[j]),
        d == r.len() || is_delimiter(r[d]),
    ensures
        delimiter_index(r, i) == d,
    decreases d - i,
{
    if i < d {
        lemma_delimiter_index_at(r, i + 1, d);
    }
}

/// The name is cut exactly at the first of `.`, `,`, newline, `!` and `?` in the text after
/// the trigger (its leading whitespace dropped), or at the end of that text where none occurs:
/// every character before that point is kept, and what is kept, trimmed and cut to
/// `MAX_LENGTH` characters, is the name.
pub proof fn lemma_dad_name_cut_at_first_delimiter(c: Seq<char>, l: Seq<char>, k: int, d: int)
    requires
        last_trigger_end(l, l.len() as int) matches Some(e) && char_index_at_byte(
            c,
            byte_len(l.take(e)) as int,
        ) == Some(k),
        0 <= d <= trim_start(c.skip(k)).len(),
        forall|j: int|
            0 <= j < d ==> {
                let ch = #[trigger] trim_start(c.skip(k))[j];
                ch != '.' && ch != ',' && ch != '\n' && ch != '!' && ch != '?'
            },
        d == trim_start(c.skip(k)).len() || {
            let ch = trim_start(c.skip(k))[d];
            ch == '.' || ch == ',' || ch == '\n' || ch == '!' || ch == '?'
        },
    ensures
        dad_name_spec(c, l) == {
            let kept = trim(trim_start(c.skip(k)).take(d));
            if kept.len() == 0 {
                None
            } else {
                let cut = if kept.len() <= 75 {
                    kept
                } else {
                    kept.take(75)
                };
                if trim(cut).len() == 0 {
                    None
                } else {
                    Some(trim(cut))
                }
            }
        },
{
    let rest = trim_start(c.skip(k));
    assert forall|j: int| 0 <= j < d implies !is_delimiter(#[trigger] rest[j]) by {
        let ch = rest[j];
        assert(ch != '.' && ch != ',' && ch != '\n' && ch != '!' && ch != '?');
    }
    lemma_delimiter_index_at(rest, 0, d);
    if rest.len() == 0 {
        assert(rest.take(d) =~= Seq::<char>::empty());
    }
}

/// The name that the joke greets is never empty, at most `MAX_LENGTH` characters long, holds
/// no delimiter and neither starts nor ends with whitespace.
pub proof fn lemma_dad_name_shape(c: Seq<char>, l: Seq<char>)
    ensures
        dad_name_spec(c, l) matches Some(n) ==> {
            &&& 0 < n.len() <= MAX_LENGTH
            &&& no_delimiter(n)
            &&& !is_ws(n[0])
            &&& !is_ws(n.last())
        },
{
    if let Some(e) = last_trigger_end(l, l.len() as int) {
        if let Some(k) = char_index_at_byte(c, byte_len(l.take(e)) as int) {
            let rest = trim_start(c.skip(k));
            if rest.len() > 0 {
                lemma_delimiter_index(rest, 0);
                let d = delimiter_index(rest, 0);
                let head = rest.take(d);
                assert(no_delimiter(head)) by {
                    assert forall|j: int| 0 <= j < head.len() implies !is_delimiter(#[trigger] head[j]) by {
                        assert(head[j] == rest[j]);
                    }
                }
                lemma_trim_shape(head);
                let result = trim(head);
                if result.len() > 0 {
                    let cut = if result.len() <= MAX_LENGTH {
                        result
                    } else {
                        result.take(MAX_LENGTH as int)
                    };
                    assert(no_delimiter(cut)) by {
                        assert forall|j: int| 0 <= j < cut.len() implies !is_delimiter(#[trigger] cut[j]) by {
                            assert(cut[j] == result[j]);
                        }
                    }
                    lemma_trim_shape(cut);
                }
            }
        }
    }
}

} // verus!
