//! The banner printed at startup: its lines, and how they are centred in the frame.
use vstd::prelude::*;
use vstd::string::StringExecFns;

use crate::text::{byte_len, byte_len_of_prefix, chars_of, string_views};

verus! {

/// The banner's lines: the name, version and author; the license; the version alone.
pub fn startup_lines(version: &str) -> (r: Vec<String>)
    ensures
        string_views(r@) == seq![
            "skekbot-rs "@ + version@ + " by gurkan"@,
            "MPL 2.0 license"@,
            version@,
        ],
{
    let mut r: Vec<String> = Vec::new();
    r.push(String::from_str("skekbot-rs ").concat(version).concat(" by gurkan"));
    r.push(String::from_str("MPL 2.0 license"));
    r.push(String::from_str(version));
    assert(string_views(r@) =~= seq![
        "skekbot-rs "@ + version@ + " by gurkan"@,
        "MPL 2.0 license"@,
        version@,
    ]);
    r
}

/// The widest line, in bytes (0 for no lines).
pub open spec fn max_byte_len(lines: Seq<Seq<char>>) -> nat
    decreases lines.len(),
{
    if lines.len() == 0 {
        0
    } else {
        let rest = max_byte_len(lines.drop_last());
        if byte_len(lines.last()) > rest {
            byte_len(lines.last())
        } else {
            rest
        }
    }
}

/// The frame around the banner: the content's width, the width between the corners, and
/// the spaces left and right of each line.
pub struct BannerLayout {
    pub content_width: usize,
    pub total_width: usize,
    pub padding: Vec<(usize, usize)>,
}

/// Each line is centred in the widest line's width, the odd space going to the right; the
/// frame is two spaces wider on each side.
pub fn banner_layout(lines: &Vec<String>) -> (r: BannerLayout)
    requires
        forall|i: int| 0 <= i < lines.len() ==> byte_len(#[trigger] lines@[i]@) <= isize::MAX,
    ensures
        r.content_width == max_byte_len(string_views(lines@)),
        r.total_width == r.content_width + 4,
        r.padding.len() == lines.len(),
        forall|i: int| 0 <= i < lines.len() ==> {
            let pad = r.content_width - byte_len(lines@[i]@);
            &&& (#[trigger] r.padding@[i]).0 == pad / 2
            &&& r.padding@[i].1 == pad - pad / 2
            &&& r.padding@[i].0 + byte_len(lines@[i]@) + r.padding@[i].1 == r.content_width
        },
{
    let ghost views = string_views(lines@);
    let mut widths: Vec<usize> = Vec::new();
    let mut width: usize = 0;
    let mut i: usize = 0;
    while i < lines.len()
        invariant
            i <= lines.len(),
            views == string_views(lines@),
            forall|k: int| 0 <= k < lines.len() ==> byte_len(#[trigger] lines@[k]@) <= isize::MAX,
            widths.len() == i,
            forall|k: int| 0 <= k < i ==> #[trigger] widths@[k] == byte_len(lines@[k]@),
            width == max_byte_len(views.take(i as int)),
            width <= isize::MAX,
        decreases lines.len() - i,
    {
        let v = chars_of(lines[i].as_str());
        assert(v@.take(v.len() as int) =~= v@);
        let w = byte_len_of_prefix(&v, v.len()) as usize;
        assert(views.take(i as int + 1).drop_last() =~= views.take(i as int));
        assert(views[i as int] == lines@[i as int]@);
        widths.push(w);
        if w > width {
            width = w;
        }
        i = i + 1;
    }
    assert(views.take(lines.len() as int) =~= views);
    proof {
        lemma_max_byte_len_bounds(views);
    }
    let mut padding: Vec<(usize, usize)> = Vec::new();
    let mut j: usize = 0;
    while j < lines.len()
        invariant
            j <= lines.len(),
            widths.len() == lines.len(),
            views == string_views(lines@),
            forall|k: int| 0 <= k < lines.len() ==> #[trigger] widths@[k] == byte_len(lines@[k]@),
            forall|k: int| 0 <= k < lines.len() ==> byte_len(#[trigger] views[k]) <= width,
            padding.len() == j,
            forall|k: int| 0 <= k < j ==> {
                let pad = width - byte_len(lines@[k]@);
                &&& (#[trigger] padding@[k]).0 == pad / 2
                &&& padding@[k].1 == pad - pad / 2
                &&& padding@[k].0 + byte_len(lines@[k]@) + padding@[k].1 == width
            },
        decreases lines.len() - j,
    {
        assert(views[j as int] == lines@[j as int]@);
        let pad = width - widths[j];
        padding.push((pad / 2, pad - pad / 2));
        j = j + 1;
    }
    BannerLayout { content_width: width, total_width: width + 4, padding }
}

/// The widest line is at least as wide as each line.
proof fn lemma_max_byte_len_bounds(lines: Seq<Seq<char>>)
    ensures
        forall|k: int| 0 <= k < lines.len() ==> byte_len(#[trigger] lines[k]) <= max_byte_len(lines),
    decreases lines.len(),
{
    if lines.len() > 0 {
        lemma_max_byte_len_bounds(lines.drop_last());
        assert forall|k: int| 0 <= k < lines.len() implies byte_len(#[trigger] lines[k]) <= max_byte_len(
            lines,
        ) by {
            if k < lines.len() - 1 {
                assert(lines[k] == lines.drop_last()[k]);
            }
        }
    }
}

} // verus!
