//! The "hidden" joke: the last noun phrase of a message, with the verb that agrees with it.
use vstd::prelude::*;

use crate::text::{
    chars_of, is_whitespace, is_ws, join_words, lowercase, opt_view, same_text, slice_chars, string_of,
    to_lowercase,
    trim, trim_chars,
};

verus! {

/// One token of a tagged sentence: its text and its first part-of-speech tag (empty when it
/// has none).
#[derive(Debug, Clone)]
pub struct NlpToken {
    pub word: String,
    pub tag: String,
}

/// A word that ends a noun phrase because it acts as a pronoun, verb or connective.
pub open spec fn is_phrase_breaker(w: Seq<char>) -> bool {
    ||| w == "i"@
    ||| w == "you"@
    ||| w == "he"@
    ||| w == "she"@
    ||| w == "it"@
    ||| w == "we"@
    ||| w == "they"@
    ||| w == "me"@
    ||| w == "him"@
    ||| w == "us"@
    ||| w == "them"@
    ||| w == "is"@
    ||| w == "are"@
    ||| w == "was"@
    ||| w == "were"@
    ||| w == "am"@
    ||| w == "be"@
    ||| w == "been"@
    ||| w == "being"@
    ||| w == "do"@
    ||| w == "does"@
    ||| w == "did"@
    ||| w == "have"@
    ||| w == "has"@
    ||| w == "had"@
    ||| w == "can"@
    ||| w == "could"@
    ||| w == "shall"@
    ||| w == "should"@
    ||| w == "will"@
    ||| w == "would"@
    ||| w == "may"@
    ||| w == "might"@
    ||| w == "must"@
    ||| w == "and"@
    ||| w == "but"@
    ||| w == "or"@
    ||| w == "so"@
    ||| w == "because"@
    ||| w == "if"@
    ||| w == "then"@
    ||| w == "than"@
    ||| w == "why"@
    ||| w == "how"@
    ||| w == "what"@
    ||| w == "where"@
    ||| w == "in"@
    ||| w == "on"@
    ||| w == "at"@
    ||| w == "to"@
    ||| w == "from"@
    ||| w == "with"@
    ||| w == "about"@
    ||| w == "for"@
    ||| w == "of"@
    ||| w == "by"@
    ||| w == "think"@
    ||| w == "know"@
    ||| w == "say"@
    ||| w == "said"@
    ||| w == "make"@
    ||| w == "made"@
    ||| w == "go"@
    ||| w == "went"@
    ||| w == "take"@
    ||| w == "took"@
    ||| w == "want"@
    ||| w == "got"@
    ||| w == "get"@
    ||| w == "love"@
    ||| w == "like"@
    ||| w == "hate"@
    ||| w == "see"@
    ||| w == "saw"@
    ||| w == "look"@
    ||| w == "looks"@
    ||| w == "need"@
    ||| w == "needs"@
}

/// Whether `w` ends a noun phrase.
pub fn phrase_breaker(w: &Vec<char>) -> (r: bool)
    ensures
        r == is_phrase_breaker(w@),
{
        same_text(w, "i") ||
        same_text(w, "you") ||
        same_text(w, "he") ||
        same_text(w, "she") ||
        same_text(w, "it") ||
        same_text(w, "we") ||
        same_text(w, "they") ||
        same_text(w, "me") ||
        same_text(w, "him") ||
        same_text(w, "us") ||
        same_text(w, "them") ||
        same_text(w, "is") ||
        same_text(w, "are") ||
        same_text(w, "was") ||
        same_text(w, "were") ||
        same_text(w, "am") ||
        same_text(w, "be") ||
        same_text(w, "been") ||
        same_text(w, "being") ||
        same_text(w, "do") ||
        same_text(w, "does") ||
        same_text(w, "did") ||
        same_text(w, "have") ||
        same_text(w, "has") ||
        same_text(w, "had") ||
        same_text(w, "can") ||
        same_text(w, "could") ||
        same_text(w, "shall") ||
        same_text(w, "should") ||
        same_text(w, "will") ||
        same_text(w, "would") ||
        same_text(w, "may") ||
        same_text(w, "might") ||
        same_text(w, "must") ||
        same_text(w, "and") ||
        same_text(w, "but") ||
        same_text(w, "or") ||
        same_text(w, "so") ||
        same_text(w, "because") ||
        same_text(w, "if") ||
        same_text(w, "then") ||
        same_text(w, "than") ||
        same_text(w, "why") ||
        same_text(w, "how") ||
        same_text(w, "what") ||
        same_text(w, "where") ||
        same_text(w, "in") ||
        same_text(w, "on") ||
        same_text(w, "at") ||
        same_text(w, "to") ||
        same_text(w, "from") ||
        same_text(w, "with") ||
        same_text(w, "about") ||
        same_text(w, "for") ||
        same_text(w, "of") ||
        same_text(w, "by") ||
        same_text(w, "think") ||
        same_text(w, "know") ||
        same_text(w, "say") ||
        same_text(w, "said") ||
        same_text(w, "make") ||
        same_text(w, "made") ||
        same_text(w, "go") ||
        same_text(w, "went") ||
        same_text(w, "take") ||
        same_text(w, "took") ||
        same_text(w, "want") ||
        same_text(w, "got") ||
        same_text(w, "get") ||
        same_text(w, "love") ||
        same_text(w, "like") ||
        same_text(w, "hate") ||
        same_text(w, "see") ||
        same_text(w, "saw") ||
        same_text(w, "look") ||
        same_text(w, "looks") ||
        same_text(w, "need") ||
        same_text(w, "needs")
}

/// The abbreviations that are spelt out when they head the phrase.
pub open spec fn abbreviation(w: Seq<char>) -> Option<Seq<char>> {
    if w == "perms"@ {
        Some("permissions"@)
    } else if w == "msgs"@ {
        Some("messages"@)
    } else if w == "imgs"@ {
        Some("images"@)
    } else {
        None
    }
}

/// The spelt-out form of `w`, if it is a known abbreviation.
pub fn expand_abbreviation(w: &Vec<char>) -> (r: Option<String>)
    ensures
        opt_view(r) == abbreviation(w@),
{
    if same_text(w, "perms") {
        Some(String::from_str("permissions"))
    } else if same_text(w, "msgs") {
        Some(String::from_str("messages"))
    } else if same_text(w, "imgs") {
        Some(String::from_str("images"))
    } else {
        None
    }
}

/// The scan of a sentence's tokens: the noun phrases found so far, and the one being built.
pub struct NounScan {
    /// Finished phrases: their text and whether their last noun is plural.
    pub phrases: Seq<(Seq<char>, bool)>,
    /// The words of the phrase being built.
    pub words: Seq<Seq<char>>,
    /// Whether the last noun of the phrase being built is plural.
    pub plural: bool,
    /// Whether the phrase being built holds a noun.
    pub noun: bool,
}

/// Ends the phrase being built; it is kept only if it holds a noun.
pub open spec fn flush(s: NounScan) -> NounScan {
    NounScan {
        phrases: if s.words.len() > 0 && s.noun {
            s.phrases.push((join_words(s.words), s.plural))
        } else {
            s.phrases
        },
        words: Seq::empty(),
        plural: false,
        noun: false,
    }
}

/// The tag marks a noun (`NN…`).
pub open spec fn is_noun_tag(tag: Seq<char>) -> bool {
    tag.len() >= 2 && tag[0] == 'N' && tag[1] == 'N'
}

/// The tag marks an adjective (`JJ…`).
pub open spec fn is_adjective_tag(tag: Seq<char>) -> bool {
    tag.len() >= 2 && tag[0] == 'J' && tag[1] == 'J'
}

/// The tag marks a plural noun (`NNS` or `NNPS`).
pub open spec fn is_plural_tag(tag: Seq<char>) -> bool {
    tag == seq!['N', 'N', 'S'] || tag == seq!['N', 'N', 'P', 'S']
}

/// One token read into the scan: empty words are skipped, breakers and words that are
/// neither nouns nor adjectives end the phrase, nouns and adjectives extend it.
pub open spec fn scan_step(s: NounScan, t: NlpToken) -> NounScan {
    let w = trim(t.word@);
    if w.len() == 0 {
        s
    } else if is_phrase_breaker(lowercase(w)) {
        flush(s)
    } else if is_noun_tag(t.tag@) {
        NounScan { words: s.words.push(w), noun: true, plural: is_plural_tag(t.tag@), ..s }
    } else if is_adjective_tag(t.tag@) {
        NounScan { words: s.words.push(w), ..s }
    } else {
        flush(s)
    }
}

/// The scan before any token.
pub open spec fn empty_scan() -> NounScan {
    NounScan { phrases: Seq::empty(), words: Seq::empty(), plural: false, noun: false }
}

/// The scan after all of `ts`.
pub open spec fn scan_tokens(ts: Seq<NlpToken>) -> NounScan
    decreases ts.len(),
{
    if ts.len() == 0 {
        empty_scan()
    } else {
        scan_step(scan_tokens(ts.drop_last()), ts.last())
    }
}

/// The noun phrases of a tagged text, in order.
pub open spec fn noun_phrases(ts: Seq<NlpToken>) -> Seq<(Seq<char>, bool)> {
    flush(scan_tokens(ts)).phrases
}

/// The scan after all of `ts`, starting from the scan `s`.
pub open spec fn scan_from(s: NounScan, ts: Seq<NlpToken>) -> NounScan
    decreases ts.len(),
{
    if ts.len() == 0 {
        s
    } else {
        scan_step(scan_from(s, ts.drop_last()), ts.last())
    }
}

/// The scan `y` with the finished phrases `ps` put before its own.
pub open spec fn after_phrases(ps: Seq<(Seq<char>, bool)>, y: NounScan) -> NounScan {
    NounScan { phrases: ps + y.phrases, ..y }
}

proof fn lemma_scan_tokens_from(ts: Seq<NlpToken>)
    ensures
        scan_tokens(ts) == scan_from(empty_scan(), ts),
    decreases ts.len(),
{
    if ts.len() > 0 {
        lemma_scan_tokens_from(ts.drop_last());
    }
}

proof fn lemma_scan_from_concat(s: NounScan, a: Seq<NlpToken>, b: Seq<NlpToken>)
    ensures
        scan_from(s, a + b) == scan_from(scan_from(s, a), b),
    decreases b.len(),
{
    if b.len() == 0 {
        assert(a + b =~= a);
    } else {
        assert((a + b).drop_last() =~= a + b.drop_last());
        assert((a + b).last() == b.last());
        lemma_scan_from_concat(s, a, b.drop_last());
    }
}

proof fn lemma_flush_after_phrases(ps: Seq<(Seq<char>, bool)>, y: NounScan)
    ensures
        flush(after_phrases(ps, y)) == after_phrases(ps, flush(y)),
{
    if y.words.len() > 0 && y.noun {
        assert((ps + y.phrases).push((join_words(y.words), y.plural))
            =~= ps + y.phrases.push((join_words(y.words), y.plural)));
    }
}

proof fn lemma_scan_from_after_phrases(ps: Seq<(Seq<char>, bool)>, y: NounScan, b: Seq<NlpToken>)
    ensures
        scan_from(after_phrases(ps, y), b) == after_phrases(ps, scan_from(y, b)),
    decreases b.len(),
{
    if b.len() > 0 {
        lemma_scan_from_after_phrases(ps, y, b.drop_last());
        lemma_flush_after_phrases(ps, scan_from(y, b.drop_last()));
    }
}

/// A token whose trimmed word is not empty and whose tag marks neither a noun (`NN…`) nor an
/// adjective (`JJ…`) belongs to no noun phrase and no phrase spans it: the noun phrases of
/// `a`, that token, then `b` are those of `a` followed by those of `b`.
pub proof fn lemma_non_phrase_token_splits_phrases(a: Seq<NlpToken>, v: NlpToken, b: Seq<NlpToken>)
    requires
        trim(v.word@).len() > 0,
        !(v.tag@.len() >= 2 && v.tag@[0] == 'N' && v.tag@[1] == 'N'),
        !(v.tag@.len() >= 2 && v.tag@[0] == 'J' && v.tag@[1] == 'J'),
    ensures
        noun_phrases(a + seq![v] + b) == noun_phrases(a) + noun_phrases(b),
{
    let av = a + seq![v];
    lemma_scan_tokens_from(a + seq![v] + b);
    lemma_scan_tokens_from(b);
    lemma_scan_from_concat(empty_scan(), av, b);
    assert(av.drop_last() =~= a);
    assert(av.last() == v);
    lemma_scan_tokens_from(av);
    let f = flush(scan_tokens(a));
    assert(scan_tokens(av) == f);
    assert(f == after_phrases(noun_phrases(a), empty_scan())) by {
        assert(f.phrases =~= noun_phrases(a) + empty_scan().phrases);
    }
    lemma_scan_from_after_phrases(noun_phrases(a), empty_scan(), b);
    lemma_flush_after_phrases(noun_phrases(a), scan_from(empty_scan(), b));
}

/// Where the trailing word of `s[..p]` starts.
pub open spec fn trailing_word_start(s: Seq<char>, p: int) -> int
    decreases p,
{
    if p <= 0 {
        0
    } else if is_ws(s[p - 1]) {
        p
    } else {
        trailing_word_start(s, p - 1)
    }
}

/// The last whitespace-separated word of a trimmed, non-empty `s`.
pub open spec fn last_word(s: Seq<char>) -> Seq<char> {
    s.skip(trailing_word_start(s, s.len() as int))
}

/// The joke built from a phrase whose articles were already removed: its last word spelt
/// out if abbreviated, followed by "is" or "are".
pub open spec fn joke_from_stripped(stripped: Seq<char>, plural: bool) -> Option<Seq<char>> {
    let cleaned = trim(stripped);
    if cleaned.len() == 0 {
        None
    } else {
        let w = last_word(cleaned);
        let head = match abbreviation(lowercase(w)) {
            Some(a) => a,
            None => w,
        };
        Some(cleaned.take(cleaned.len() - w.len()) + head + seq![' '] + if plural {
            "are"@
        } else {
            "is"@
        })
    }
}

/// The words joined with single spaces.
fn join_with_spaces(ws: &Vec<Vec<char>>) -> (r: Vec<char>)
    ensures
        r@ == join_words(ws@.map_values(|w: Vec<char>| w@)),
{
    let ghost views = ws@.map_values(|w: Vec<char>| w@);
    let mut out: Vec<char> = Vec::new();
    let mut i: usize = 0;
    while i < ws.len()
        invariant
            i <= ws.len(),
            views == ws@.map_values(|w: Vec<char>| w@),
            out@ == join_words(views.take(i as int)),
        decreases ws.len() - i,
    {
        let ghost before = out@;
        assert(views.take(i as int + 1).drop_last() =~= views.take(i as int));
        assert(views.take(i as int + 1).last() == ws@[i as int]@);
        if i > 0 {
            out.push(' ');
        }
        let w = &ws[i];
        let mut j: usize = 0;
        let ghost mid = out@;
        while j < w.len()
            invariant
                j <= w.len(),
                out@ == mid + w@.take(j as int),
            decreases w.len() - j,
        {
            out.push(w[j]);
            assert(out@ =~= mid + w@.take(j as int + 1));
            j = j + 1;
        }
        assert(w@.take(w.len() as int) =~= w@);
        if i == 0 {
            assert(out@ =~= join_words(views.take(1)));
        } else {
            assert(out@ =~= before + seq![' '] + w@);
        }
        i = i + 1;
    }
    assert(views.take(ws.len() as int) =~= views);
    out
}

/// The exec form of the scan state.
struct ScanState {
    phrases: Vec<(Vec<char>, bool)>,
    words: Vec<Vec<char>>,
    plural: bool,
    noun: bool,
}

impl ScanState {
    spec fn view_scan(&self) -> NounScan {
        NounScan {
            phrases: self.phrases@.map_values(|p: (Vec<char>, bool)| (p.0@, p.1)),
            words: self.words@.map_values(|w: Vec<char>| w@),
            plural: self.plural,
            noun: self.noun,
        }
    }

    fn flush_phrase(&mut self)
        ensures
            final(self).view_scan() == flush(old(self).view_scan()),
    {
        if self.words.len() > 0 && self.noun {
            let text = join_with_spaces(&self.words);
            self.phrases.push((text, self.plural));
        }
        self.words = Vec::new();
        self.plural = false;
        self.noun = false;
        assert(final(self).view_scan().phrases =~= flush(old(self).view_scan()).phrases);
        assert(final(self).view_scan().words =~= flush(old(self).view_scan()).words);
    }
}

/// The noun phrases of the tagged tokens, in order: their text and whether the last noun of
/// each is plural.
pub fn find_noun_phrases(tokens: &Vec<NlpToken>) -> (r: Vec<(Vec<char>, bool)>)
    ensures
        r@.map_values(|p: (Vec<char>, bool)| (p.0@, p.1)) == noun_phrases(tokens@),
{
    let mut st = ScanState { phrases: Vec::new(), words: Vec::new(), plural: false, noun: false };
    assert(st.view_scan().phrases =~= empty_scan().phrases);
    assert(st.view_scan().words =~= empty_scan().words);
    let mut i: usize = 0;
    while i < tokens.len()
        invariant
            i <= tokens.len(),
            st.view_scan() == scan_tokens(tokens@.take(i as int)),
        decreases tokens.len() - i,
    {
        assert(tokens@.take(i as int + 1).drop_last() =~= tokens@.take(i as int));
        let t = &tokens[i];
        let raw = chars_of(t.word.as_str());
        let w = trim_chars(&raw);
        if w.len() > 0 {
            let lower_text = to_lowercase(string_of(&w).as_str());
            let lower = chars_of(lower_text.as_str());
            if phrase_breaker(&lower) {
                st.flush_phrase();
            } else {
                let tag = chars_of(t.tag.as_str());
                let nn = tag.len() >= 2 && tag[0] == 'N' && tag[1] == 'N';
                let jj = tag.len() >= 2 && tag[0] == 'J' && tag[1] == 'J';
                if nn {
                    let plural = same_text(&tag, "NNS") || same_text(&tag, "NNPS");
                    proof {
                        reveal_strlit("NNS");
                        reveal_strlit("NNPS");
                        assert("NNS"@ =~= seq!['N', 'N', 'S']);
                        assert("NNPS"@ =~= seq!['N', 'N', 'P', 'S']);
                    }
                    assert(plural == is_plural_tag(tag@));
                    st.words.push(w);
                    st.noun = true;
                    st.plural = plural;
                    assert(st.view_scan().words =~= scan_tokens(tokens@.take(i as int + 1)).words);
                } else if jj {
                    st.words.push(w);
                    assert(st.view_scan().words =~= scan_tokens(tokens@.take(i as int + 1)).words);
                } else {
                    st.flush_phrase();
                }
            }
        }
        i = i + 1;
    }
    st.flush_phrase();
    assert(tokens@.take(tokens.len() as int) =~= tokens@);
    st.phrases
}

/// The pattern of the articles that are removed from the phrase.
pub open spec fn article_pattern() -> Seq<char> {
    "(?i)\\b(a|an|the)\\b"@
}

/// Whether `regex::Regex::new` accepts the pattern.
pub uninterp spec fn regex_compiles(pattern: Seq<char>) -> bool;

/// What `regex::Regex::replace_all` returns for the compiled pattern, the haystack and the
/// replacement.
pub uninterp spec fn regex_replace_all(
    pattern: Seq<char>,
    haystack: Seq<char>,
    replacement: Seq<char>,
) -> Seq<char>;

/// Compiles `pattern` with `regex::Regex::new` and, when it compiles, replaces every match in
/// `haystack` by `replacement` with `regex::Regex::replace_all`. Both results are named, not
/// described: the regex engine's matching is not written out here.
#[verifier::external_body]
fn replace_all_matches(pattern: &str, haystack: &str, replacement: &str) -> (r: Option<String>)
    ensures
        r is Some <==> regex_compiles(pattern@),
        r matches Some(out) ==> out@ == regex_replace_all(pattern@, haystack@, replacement@),
{
    match regex::Regex::new(pattern) {
        Ok(re) => Some(re.replace_all(haystack, replacement).into_owned()),
        Err(_) => None,
    }
}

/// The last whitespace-separated word of `s`.
fn trailing_word(s: &Vec<char>) -> (r: Vec<char>)
    ensures
        r@ == last_word(s@),
        r@.len() <= s@.len(),
{
    let mut p: usize = s.len();
    while p > 0 && !is_whitespace(s[p - 1])
        invariant
            p <= s.len(),
            trailing_word_start(s@, s.len() as int) == trailing_word_start(s@, p as int),
        decreases p,
    {
        p = p - 1;
    }
    let r = slice_chars(s, p, s.len());
    assert(r@ =~= s@.skip(p as int));
    r
}

/// The joke for a phrase whose articles were already removed.
pub fn joke_from_stripped_phrase(stripped: &Vec<char>, plural: bool) -> (r: Option<String>)
    ensures
        opt_view(r) == joke_from_stripped(stripped@, plural),
{
    let cleaned = trim_chars(stripped);
    if cleaned.len() == 0 {
        return None;
    }
    let w = trailing_word(&cleaned);
    let head_lower_text = to_lowercase(string_of(&w).as_str());
    let head_lower = chars_of(head_lower_text.as_str());
    let head = match expand_abbreviation(&head_lower) {
        Some(a) => a,
        None => string_of(&w),
    };
    let prefix = slice_chars(&cleaned, 0, cleaned.len() - w.len());
    let mut out = string_of(&prefix);
    out.append(head.as_str());
    if plural {
        out.append(" are");
    } else {
        out.append(" is");
    }
    proof {
        reveal_strlit(" are");
        reveal_strlit(" is");
        reveal_strlit("are");
        reveal_strlit("is");
        assert(" are"@ =~= seq![' '] + "are"@);
        assert(" is"@ =~= seq![' '] + "is"@);
    }
    assert(out@ =~= joke_from_stripped(stripped@, plural)->0);
    Some(out)
}

/// The joke for the tagged tokens of a message, when `regex_compiles(article_pattern())`.
pub open spec fn hidden_joke(tokens: Seq<NlpToken>) -> Option<Seq<char>> {
    let ps = noun_phrases(tokens);
    if ps.len() == 0 {
        None
    } else {
        joke_from_stripped(
            regex_replace_all(article_pattern(), ps.last().0, Seq::empty()),
            ps.last().1,
        )
    }
}

/// Names the last noun phrase of a tagged message, with its articles removed and its head
/// abbreviation spelt out, followed by "is" or "are" as its last noun is singular or plural.
/// `None` when there is no noun phrase, when nothing is left of it, or when the article
/// pattern does not compile.
pub fn extract_nouns_with_correct_verb(tokens: &Vec<NlpToken>) -> (r: Option<String>)
    ensures
        regex_compiles(article_pattern()) ==> opt_view(r) == hidden_joke(tokens@),
        !regex_compiles(article_pattern()) ==> r is None,
{
    let phrases = find_noun_phrases(tokens);
    if phrases.len() == 0 {
        return None;
    }
    let last = &phrases[phrases.len() - 1];
    let ghost ps = noun_phrases(tokens@);
    assert(ps.last() == (last.0@, last.1)) by {
        assert(ps == phrases@.map_values(|p: (Vec<char>, bool)| (p.0@, p.1)));
    }
    let text = string_of(&last.0);
    let stripped = match replace_all_matches("(?i)\\b(a|an|the)\\b", text.as_str(), "") {
        None => return None,
        Some(s) => s,
    };
    proof {
        reveal_strlit("");
        assert(""@ =~= Seq::<char>::empty());
    }
    let stripped_chars = chars_of(stripped.as_str());
    joke_from_stripped_phrase(&stripped_chars, last.1)
}

} // verus!
