//! The quote card: the quoted words wrapped into lines that fit the text column, and where
//! each line, the author's name and the handle stand on the card.
use vstd::prelude::*;
use vstd::string::StringExecFns;

use crate::text::{join_words, string_views};

verus! {

/// The card's width in pixels.
pub const CARD_WIDTH: u32 = 1200;

/// The card's height in pixels.
pub const CARD_HEIGHT: u32 = 630;

/// The width of the avatar on the left of the card.
pub const AVATAR_WIDTH: u32 = 500;

/// Where the avatar starts to fade into the background.
pub const FADE_START: u32 = 50;

/// The widest a line of the quote may be, in pixels.
pub const MAX_TEXT_WIDTH: u32 = 650;

/// The horizontal centre of the text column.
pub const TEXT_CENTER_X: i32 = 825;

/// The gap between two lines of the quote.
pub const LINE_GAP: i32 = 10;

/// The gap between the quote and the author's name.
pub const NAME_GAP: i32 = 30;

/// The gap between the author's name and the handle.
pub const HANDLE_GAP: i32 = 10;

/// The line that would result from adding `word` to the line being built.
pub open spec fn wrap_candidate(current: Seq<char>, word: Seq<char>) -> Seq<char> {
    if current.len() == 0 {
        word
    } else {
        current + seq![' '] + word
    }
}

/// One word of the quote, given the width that the candidate line measured: when it is too
/// wide and the line being built has words, that line is finished and the word starts the
/// next; otherwise the word joins the line.
pub open spec fn wrap_step(
    st: (Seq<Seq<char>>, Seq<char>),
    word: Seq<char>,
    width: u32,
    max_width: u32,
) -> (Seq<Seq<char>>, Seq<char>) {
    if width > max_width && st.1.len() > 0 {
        (st.0.push(st.1), word)
    } else {
        (st.0, wrap_candidate(st.1, word))
    }
}

/// The lines once every word is placed: the finished lines and the one being built, if it
/// has words.
pub open spec fn wrap_finish(st: (Seq<Seq<char>>, Seq<char>)) -> Seq<Seq<char>> {
    if st.1.len() == 0 {
        st.0
    } else {
        st.0.push(st.1)
    }
}

/// The state after placing `words`, the candidate line of the `i`th measuring `widths[i]`.
pub open spec fn wrap_run(words: Seq<Seq<char>>, widths: Seq<u32>, max_width: u32) -> (
    Seq<Seq<char>>,
    Seq<char>,
)
    decreases words.len(),
{
    if words.len() == 0 || widths.len() < words.len() {
        (Seq::empty(), Seq::empty())
    } else {
        wrap_step(
            wrap_run(words.drop_last(), widths.take(words.len() - 1), max_width),
            words.last(),
            widths[words.len() - 1],
            max_width,
        )
    }
}

/// The quote's words being wrapped into lines.
pub struct QuoteWrap {
    lines: Vec<String>,
    current: String,
}

impl QuoteWrap {
    /// The finished lines and the line being built.
    pub closed spec fn state(&self) -> (Seq<Seq<char>>, Seq<char>) {
        (string_views(self.lines@), self.current@)
    }

    /// No line yet.
    pub fn new() -> (r: QuoteWrap)
        ensures
            r.state() == (Seq::<Seq<char>>::empty(), Seq::<char>::empty()),
    {
        let r = QuoteWrap { lines: Vec::new(), current: String::new() };
        assert(string_views(r.lines@) =~= Seq::<Seq<char>>::empty());
        r
    }

    /// The line that adding `word` would make, to be measured.
    pub fn candidate(&self, word: &str) -> (r: String)
        ensures
            r@ == wrap_candidate(self.state().1, word@),
    {
        proof {
            reveal_strlit(" ");
        }
        if self.current.as_str().is_empty() {
            String::from_str(word)
        } else {
            let r = self.current.clone().concat(" ").concat(word);
            assert(r@ =~= self.current@ + seq![' '] + word@);
            r
        }
    }

    /// Places `word`, whose candidate line measured `width` pixels.
    pub fn step(&mut self, word: &str, width: u32, max_width: u32)
        ensures
            final(self).state() == wrap_step(old(self).state(), word@, width, max_width),
    {
        let current_empty = self.current.as_str().is_empty();
        let next = self.candidate(word);
        if width > max_width && !current_empty {
            let done = self.current.clone();
            let ghost before = self.lines@;
            self.lines.push(done);
            assert(string_views(self.lines@) =~= string_views(before).push(done@));
            self.current = String::from_str(word);
        } else {
            self.current = next;
        }
    }

    /// The lines of the quote.
    pub fn finish(self) -> (r: Vec<String>)
        ensures
            string_views(r@) == wrap_finish(self.state()),
    {
        let mut lines = self.lines;
        if !self.current.as_str().is_empty() {
            let ghost before = lines@;
            lines.push(self.current);
            assert(string_views(lines@) =~= string_views(before).push(self.current@));
        }
        lines
    }
}

/// Adding a word to the last line joins it with a space, as joining it as a line of its own
/// does.
proof fn lemma_join_extend_last(ls: Seq<Seq<char>>, a: Seq<char>, w: Seq<char>)
    ensures
        join_words(ls.push(a + seq![' '] + w)) == join_words(ls.push(a)) + seq![' '] + w,
{
    assert(ls.push(a + seq![' '] + w).drop_last() =~= ls);
    assert(ls.push(a).drop_last() =~= ls);
    if ls.len() == 0 {
        assert(ls.push(a + seq![' '] + w) =~= seq![a + seq![' '] + w]);
        assert(ls.push(a) =~= seq![a]);
    } else {
        assert(join_words(ls) + seq![' '] + (a + seq![' '] + w) =~= join_words(ls) + seq![' '] + a
            + seq![' '] + w);
    }
}

/// Wrapping keeps the quote's text: whatever the widths measured, the lines joined with
/// spaces are the words joined with spaces, and no line is empty.
pub proof fn lemma_wrap_keeps_words(words: Seq<Seq<char>>, widths: Seq<u32>, max_width: u32)
    requires
        widths.len() == words.len(),
        forall|i: int| 0 <= i < words.len() ==> (#[trigger] words[i]).len() > 0,
    ensures
        join_words(wrap_finish(wrap_run(words, widths, max_width))) == join_words(words),
        forall|i: int|
            0 <= i < wrap_finish(wrap_run(words, widths, max_width)).len() ==> (
            #[trigger] wrap_finish(wrap_run(words, widths, max_width))[i]).len() > 0,
        words.len() > 0 ==> wrap_run(words, widths, max_width).1.len() > 0,
    decreases words.len(),
{
    if words.len() > 0 {
        let ws = words.drop_last();
        let wd = widths.take(words.len() - 1);
        lemma_wrap_keeps_words(ws, wd, max_width);
        let st = wrap_run(ws, wd, max_width);
        let w = words.last();
        assert(w == words[words.len() - 1]);
        let width = widths[words.len() - 1];
        assert(words.drop_last().push(w) =~= words);
        if ws.len() == 0 {
            assert(st.0 =~= Seq::<Seq<char>>::empty());
            assert(wrap_finish(wrap_run(words, widths, max_width)) =~= seq![w]);
        } else {
            assert(wrap_finish(st) == st.0.push(st.1));
            if width > max_width {
                assert(st.0.push(st.1).push(w).drop_last() =~= st.0.push(st.1));
            } else {
                lemma_join_extend_last(st.0, st.1, w);
            }
            let fin = wrap_finish(wrap_run(words, widths, max_width));
            assert forall|i: int| 0 <= i < fin.len() implies (#[trigger] fin[i]).len() > 0 by {
                if i < st.0.len() {
                    assert(wrap_finish(st)[i] == st.0[i]);
                }
            }
        }
    }
}

/// Where the quote's text, the author's name and the handle stand: the top-left corner of
/// each line, of the name and of the handle.
pub struct QuoteLayout {
    pub lines: Vec<(i32, i32)>,
    pub name: (i32, i32),
    pub handle: (i32, i32),
}

/// The height of the whole text block: the lines with their gaps, the name and the handle.
pub open spec fn block_height(n: int, line_h: int, name_h: int, handle_h: int) -> int {
    n * line_h + (n - 1) * LINE_GAP + NAME_GAP + name_h + HANDLE_GAP + handle_h
}

/// Where the first line starts: the block is centred vertically on the card.
pub open spec fn block_top(n: int, line_h: int, name_h: int, handle_h: int) -> int {
    CARD_HEIGHT / 2 - block_height(n, line_h, name_h, handle_h) / 2
}

/// Where a text of width `w` starts so that it is centred on the text column.
pub open spec fn centred_x(w: u32) -> int {
    TEXT_CENTER_X - w / 2
}

/// The sizes keep every coordinate within `i32`.
pub open spec fn layout_fits(n: int, line_h: u32, name: (u32, u32), handle: (u32, u32)) -> bool {
    n * (line_h + LINE_GAP) + name.1 + handle.1 + 400 <= i32::MAX
}

/// Lays the card out: line `k` at `top + k * (line height + gap)`, the name a larger gap
/// below the last line, the handle below the name; each centred on the text column.
pub fn quote_layout(line_widths: &Vec<u32>, line_h: u32, name: (u32, u32), handle: (u32, u32)) -> (r: QuoteLayout)
    requires
        layout_fits(line_widths.len() as int, line_h, name, handle),
        forall|k: int| 0 <= k < line_widths.len() ==> #[trigger] line_widths[k] <= i32::MAX,
        name.0 <= i32::MAX,
        handle.0 <= i32::MAX,
    ensures
        ({
            let n = line_widths.len() as int;
            let top = block_top(n, line_h as int, name.1 as int, handle.1 as int);
            &&& r.lines.len() == n
            &&& forall|k: int| 0 <= k < n ==> {
                &&& (#[trigger] r.lines@[k]).0 == centred_x(line_widths[k])
                &&& r.lines@[k].1 == top + k * (line_h + LINE_GAP)
            }
            &&& r.name.0 == centred_x(name.0)
            &&& r.name.1 == top + n * (line_h + LINE_GAP) + NAME_GAP - LINE_GAP
            &&& r.handle.0 == centred_x(handle.0)
            &&& r.handle.1 == r.name.1 + name.1 + HANDLE_GAP
        }),
{
    let ghost gn = line_widths.len() as int;
    assert(gn * 10 <= gn * (line_h + 10) && gn * line_h <= gn * (line_h + 10) && gn * line_h + gn * 10
        == gn * (line_h + 10)) by (nonlinear_arith)
        requires
            gn >= 0,
            line_h >= 0,
    ;
    let n = line_widths.len() as i64;
    let h = line_h as i64;
    assert(n * (h + 10) <= i32::MAX);
    let total: i64 = n * h + (n - 1) * 10 + 30 + name.1 as i64 + 10 + handle.1 as i64;
    assert(total == block_height(gn, line_h as int, name.1 as int, handle.1 as int));
    assert(total >= 30);
    assert(total <= i32::MAX);
    let top: i64 = 315 - total / 2;
    let ghost gtop = block_top(gn, line_h as int, name.1 as int, handle.1 as int);
    assert(top == gtop);
    let mut lines: Vec<(i32, i32)> = Vec::new();
    let mut y: i64 = top;
    let mut k: usize = 0;
    while k < line_widths.len()
        invariant
            k <= line_widths.len(),
            n == line_widths.len(),
            h == line_h,
            n * (h + 10) + name.1 + handle.1 + 400 <= i32::MAX,
            top == gtop,
            top <= 300,
            top >= -(i32::MAX / 2) - 300,
            y == top + k * (h + 10),
            lines.len() == k,
            forall|k: int| 0 <= k < line_widths.len() ==> #[trigger] line_widths[k] <= i32::MAX,
            forall|j: int| 0 <= j < k ==> {
                &&& (#[trigger] lines@[j]).0 == centred_x(line_widths[j])
                &&& lines@[j].1 == gtop + j * (line_h + LINE_GAP)
            },
        decreases line_widths.len() - k,
    {
        assert(k * (h + 10) <= n * (h + 10)) by (nonlinear_arith)
            requires
                k <= n,
                h >= 0,
        ;
        let w = line_widths[k] as i64;
        let x: i64 = 825 - w / 2;
        lines.push((x as i32, y as i32));
        y = y + h + 10;
        assert(y == top + (k + 1) * (h + 10)) by (nonlinear_arith)
            requires
                y == top + k * (h + 10) + h + 10,
        ;
        k = k + 1;
    }
    let name_y: i64 = y + 20;
    let handle_y: i64 = name_y + name.1 as i64 + 10;
    QuoteLayout {
        lines,
        name: ((825 - name.0 as i64 / 2) as i32, name_y as i32),
        handle: ((825 - handle.0 as i64 / 2) as i32, handle_y as i32),
    }
}

/// Whether `quote_layout` can place text of these sizes: every width fits in `i32` and the
/// block's coordinates stay within `i32`.
pub fn quote_layout_fits(line_widths: &Vec<u32>, line_h: u32, name: (u32, u32), handle: (u32, u32)) -> (r: bool)
    ensures
        r == (layout_fits(line_widths.len() as int, line_h, name, handle) && (forall|k: int|
            0 <= k < line_widths.len() ==> #[trigger] line_widths[k] <= i32::MAX) && name.0 <= i32::MAX
            && handle.0 <= i32::MAX),
{
    let n = line_widths.len() as u128;
    let step = line_h as u128 + 10;
    assert(n * step <= 0xffff_ffff_ffff_ffff * 0x1_0000_0009) by (nonlinear_arith)
        requires
            n <= 0xffff_ffff_ffff_ffff,
            step <= 0x1_0000_0009,
    ;
    let need: u128 = n * step + name.1 as u128 + handle.1 as u128 + 400;
    if need > 2147483647u128 || name.0 > 2147483647u32 || handle.0 > 2147483647u32 {
        return false;
    }
    let mut k: usize = 0;
    while k < line_widths.len()
        invariant
            k <= line_widths.len(),
            forall|j: int| 0 <= j < k ==> #[trigger] line_widths[j] <= i32::MAX,
        decreases line_widths.len() - k,
    {
        if line_widths[k] > 2147483647u32 {
            return false;
        }
        k = k + 1;
    }
    true
}

/// The signature under the quote: a dash and the author's display name.
pub fn quote_signature(display_name: &str) -> (r: String)
    ensures
        r@ == "- "@ + display_name@,
{
    String::from_str("- ").concat(display_name)
}

} // verus!
