use vstd::prelude::*;
use vstd::string::StrSliceExecFns;
use vstd::string::StringExecFns;

pub mod errors;
pub mod events;
pub mod ids;
pub mod shell;
pub mod store;
pub mod text;

verus! {

/// Returns the string unchanged when it has at most four characters,
/// otherwise its last four characters.
pub fn last_four_chars(s: String) -> (r: String)
    ensures
        s@.len() <= 4 ==> r@ == s@,
        s@.len() > 4 ==> r@ == s@.subrange(s@.len() - 4, s@.len() as int),
{
    let n = s.as_str().unicode_len();
    if n <= 4 {
        s
    } else {
        let tail = s.as_str().substring_char(n - 4, n);
        String::from_str(tail)
    }
}

} // verus!
