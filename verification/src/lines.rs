//! Line-terminator handling: the text stored in a match record is the line
//! as scanned, with its trailing terminator removed.

use vstd::prelude::*;
use vstd::string::StrSliceExecFns;

verus! {

/// The line's text without its trailing terminator: a final `"\r\n"` or
/// `"\n"` is removed; anything else is kept as it is.
pub open spec fn strip_terminator(s: Seq<char>) -> Seq<char> {
    if s.len() >= 2 && s[s.len() - 2] == '\r' && s[s.len() - 1] == '\n' {
        s.subrange(0, s.len() - 2)
    } else if s.len() >= 1 && s[s.len() - 1] == '\n' {
        s.subrange(0, s.len() - 1)
    } else {
        s
    }
}

/// Removes the trailing line terminator, if any, from a scanned line.
pub fn strip_line_terminator(s: &str) -> (r: String)
    ensures
        r@ == strip_terminator(s@),
{
    let n = s.unicode_len();
    if n >= 2 && s.get_char(n - 2) == '\r' && s.get_char(n - 1) == '\n' {
        s.substring_char(0, n - 2).to_owned()
    } else if n >= 1 && s.get_char(n - 1) == '\n' {
        s.substring_char(0, n - 1).to_owned()
    } else {
        s.to_owned()
    }
}

} // verus!
