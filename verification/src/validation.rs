//! Validation of project names: lowercase DNS-label-like identifiers.

use vstd::prelude::*;

use crate::textutil::str_to_chars;

verus! {

/// A character allowed at the start and end of a project name.
pub open spec fn spec_name_alnum(c: char) -> bool {
    ('a' as u32 <= c as u32 && c as u32 <= 'z' as u32) || ('0' as u32 <= c as u32 && c as u32
        <= '9' as u32)
}

/// A valid project name: 1 to 63 characters, all lowercase letters, digits
/// or hyphens, with the first and last characters not hyphens.
pub open spec fn spec_valid_project(s: Seq<char>) -> bool {
    &&& 1 <= s.len() <= 63
    &&& spec_name_alnum(s[0])
    &&& spec_name_alnum(s[s.len() - 1])
    &&& forall|i: int| 0 <= i < s.len() ==> spec_name_alnum(#[trigger] s[i]) || s[i] == '-'
}

fn name_alnum(c: char) -> (r: bool)
    ensures
        r == spec_name_alnum(c),
{
    let u = c as u32;
    ('a' as u32 <= u && u <= 'z' as u32) || ('0' as u32 <= u && u <= '9' as u32)
}

/// Decides whether a string is a valid project name.
pub fn valid_project(project: &str) -> (r: bool)
    ensures
        r == spec_valid_project(project@),
{
    let chars = str_to_chars(project);
    let n = chars.len();
    if n < 1 || n > 63 {
        return false;
    }
    if !name_alnum(chars[0]) || !name_alnum(chars[n - 1]) {
        return false;
    }
    let mut i: usize = 0;
    while i < n
        invariant
            n == chars@.len(),
            chars@ == project@,
            0 <= i <= n,
            forall|j: int| 0 <= j < i ==> spec_name_alnum(#[trigger] chars@[j]) || chars@[j] == '-',
        decreases n - i,
    {
        let c = chars[i];
        if !name_alnum(c) && c != '-' {
            assert(!(spec_name_alnum(project@[i as int]) || project@[i as int] == '-'));
            return false;
        }
        i = i + 1;
    }
    true
}

} // verus!
