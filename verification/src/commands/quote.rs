//! The "Quote" context menu: how the quoted author is named on the card.
use vstd::prelude::*;
use vstd::string::StringExecFns;

use crate::text::{decimal, decimal_string, string_of};

verus! {

/// `s` padded on the left with zeros to four characters, as `{:04}` formats a number.
pub open spec fn zero_pad4(s: Seq<char>) -> Seq<char> {
    if s.len() < 4 {
        Seq::new((4 - s.len()) as nat, |i: int| '0') + s
    } else {
        s
    }
}

/// The handle of a user: `name#0042` for an account that still has a discriminator (as
/// `User::tag` writes it), `@name` otherwise.
pub fn create_username(name: &str, discriminator: Option<u16>) -> (r: String)
    requires
        discriminator != Some(0u16),
    ensures
        match discriminator {
            Some(d) => r@ == name@ + "#"@ + zero_pad4(decimal(d as nat)),
            None => r@ == "@"@ + name@,
        },
{
    match discriminator {
        Some(d) => {
            let digits = decimal_string(d as u64);
            let n = digits.as_str().unicode_len();
            let mut pad: Vec<char> = Vec::new();
            let mut i: usize = n;
            while i < 4
                invariant
                    n <= i,
                    i <= 4 || i == n,
                    n == digits@.len(),
                    pad@ == Seq::new((i - n) as nat, |j: int| '0'),
                decreases 4 - i,
            {
                pad.push('0');
                i = i + 1;
                assert(pad@ =~= Seq::new((i - n) as nat, |j: int| '0'));
            }
            let padded = string_of(&pad).concat(digits.as_str());
            assert(padded@ =~= zero_pad4(decimal(d as nat)));
            String::from_str(name).concat("#").concat(padded.as_str())
        },
        None => String::from_str("@").concat(name),
    }
}

} // verus!
