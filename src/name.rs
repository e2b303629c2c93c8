use vstd::prelude::*;
use vstd::string::*;

verus! {

/// A single path segment: non-empty and free of the path separator.
pub open spec fn is_path_segment(s: Seq<char>) -> bool {
    &&& s.len() > 0
    &&& forall|i: int| 0 <= i < s.len() ==> #[trigger] s[i] != '/'
}

/// A name that a tree entry may carry: a path segment that also holds no
/// line break, since each entry takes one line of its tree's serialization.
pub open spec fn is_entry_name(s: Seq<char>) -> bool {
    &&& is_path_segment(s)
    &&& forall|i: int| 0 <= i < s.len() ==> #[trigger] s[i] != '\n'
}

/// Whether `s` is a path segment.
pub fn valid_path_segment(s: &str) -> (r: bool)
    ensures
        r == is_path_segment(s@),
{
    let n = s.unicode_len();
    if n == 0 {
        return false;
    }
    let mut i: usize = 0;
    while i < n
        invariant
            n == s@.len(),
            i <= n,
            forall|j: int| 0 <= j < i ==> #[trigger] s@[j] != '/',
        decreases n - i,
    {
        if s.get_char(i) == '/' {
            return false;
        }
        i = i + 1;
    }
    true
}

/// Whether `s` may name a tree entry.
pub fn valid_entry_name(s: &str) -> (r: bool)
    ensures
        r == is_entry_name(s@),
{
    if !valid_path_segment(s) {
        return false;
    }
    let n = s.unicode_len();
    let mut i: usize = 0;
    while i < n
        invariant
            n == s@.len(),
            i <= n,
            forall|j: int| 0 <= j < i ==> #[trigger] s@[j] != '\n',
        decreases n - i,
    {
        if s.get_char(i) == '\n' {
            return false;
        }
        i = i + 1;
    }
    true
}

} // verus!
