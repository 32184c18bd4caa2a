//! `/info`: what the bot tells about itself.
use vstd::prelude::*;

use crate::text::{chars_of, replace_char, replace_char_with, string_of};

verus! {

/// The authors as listed in the package, `:`-separated, shown separated by commas.
pub fn authors_field(raw: &str) -> (r: String)
    ensures
        r@ == replace_char(raw@, ':', seq![',', ' ']),
{
    let mut sep: Vec<char> = Vec::new();
    sep.push(',');
    sep.push(' ');
    assert(sep@ =~= seq![',', ' ']);
    string_of(&replace_char_with(&chars_of(raw), ':', &sep))
}

} // verus!
