use vstd::prelude::*;

verus! {

/// Compares two string slices character by character.
pub fn str_equals(s: &str, t: &str) -> (r: bool)
    ensures
        r == (s@ == t@),
{
    let n = s.unicode_len();
    if n != t.unicode_len() {
        return false;
    }
    let mut i: usize = 0;
    while i < n
        invariant
            n == s@.len(),
            n == t@.len(),
            i <= n,
            forall|j: int| 0 <= j < i ==> s@[j] == t@[j],
        decreases n - i,
    {
        if s.get_char(i) != t.get_char(i) {
            return false;
        }
        i = i + 1;
    }
    assert(s@ =~= t@);
    true
}

} // verus!
