//! ASCII-case-insensitive comparison of strings, used for weekday names and
//! image-file extensions.

use vstd::prelude::*;

verus! {

/// The code point of `c` with an ASCII upper-case letter mapped to its
/// lower-case counterpart; every other character is left as it is.
pub open spec fn lower_val(c: char) -> int {
    if 'A' <= c && c <= 'Z' {
        c as int + 32
    } else {
        c as int
    }
}

/// Character sequences that are equal once ASCII letters are folded to
/// lower case.
pub open spec fn eq_ignore_case(a: Seq<char>, b: Seq<char>) -> bool {
    a.len() == b.len() && forall|i: int| 0 <= i < a.len() ==> lower_val(a[i]) == lower_val(b[i])
}

/// Compares two strings, folding ASCII letters to lower case.
pub fn eq_ignore_ascii_case(a: &str, b: &str) -> (r: bool)
    ensures
        r == eq_ignore_case(a@, b@),
{
    let alen = a.unicode_len();
    let blen = b.unicode_len();
    if alen != blen {
        return false;
    }
    let mut i: usize = 0;
    while i < alen
        invariant
            alen == a@.len(),
            alen == b@.len(),
            i <= alen,
            forall|j: int| 0 <= j < i ==> lower_val(a@[j]) == lower_val(b@[j]),
        decreases alen - i,
    {
        let ca = a.get_char(i);
        let cb = b.get_char(i);
        let va: u32 = if ca >= 'A' && ca <= 'Z' {
            ca as u32 + 32
        } else {
            ca as u32
        };
        let vb: u32 = if cb >= 'A' && cb <= 'Z' {
            cb as u32 + 32
        } else {
            cb as u32
        };
        if va != vb {
            assert(lower_val(a@[i as int]) != lower_val(b@[i as int]));
            return false;
        }
        i += 1;
    }
    true
}

} // verus!
