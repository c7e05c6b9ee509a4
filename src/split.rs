//! Splits requests between two handlers by their path, so that only some
//! endpoints carry a session cookie.
use vstd::prelude::*;
use vstd::string::*;

use crate::phrase::words_view;

verus! {

/// `p` is a prefix of `s`.
pub open spec fn is_prefix(p: Seq<char>, s: Seq<char>) -> bool {
    p.len() <= s.len() && s.subrange(0, p.len() as int) == p
}

/// A path goes left when it starts with one of `split_on` or equals one of
/// `equal_to`.
pub open spec fn path_goes_left(split_on: Seq<Seq<char>>, equal_to: Seq<Seq<char>>, path: Seq<char>) -> bool {
    (exists|i: int| 0 <= i < split_on.len() && is_prefix(#[trigger] split_on[i], path)) || (exists|
        j: int,
    |
        0 <= j < equal_to.len() && #[trigger] equal_to[j] == path)
}

/// Whether `s` starts with `p`.
pub fn starts_with(s: &str, p: &str) -> (r: bool)
    ensures
        r == is_prefix(p@, s@),
{
    let n = p.unicode_len();
    if n > s.unicode_len() {
        return false;
    }
    let mut i: usize = 0;
    while i < n
        invariant
            n == p@.len(),
            n <= s@.len(),
            0 <= i <= n,
            forall|k: int| 0 <= k < i ==> s@[k] == p@[k],
        decreases n - i,
    {
        if s.get_char(i) != p.get_char(i) {
            assert(s@.subrange(0, n as int)[i as int] != p@[i as int]);
            return false;
        }
        i += 1;
    }
    assert(s@.subrange(0, n as int) =~= p@);
    true
}

/// Splits requests between two handlers. Paths have no leading slash.
pub struct ChainSplit<A, B> {
    left: A,
    right: B,
    split_on: Vec<String>,
    equal_to: Vec<String>,
}

impl<A, B> ChainSplit<A, B> {
    /// The prefixes that send a path left.
    pub closed spec fn prefixes(&self) -> Seq<Seq<char>> {
        words_view(self.split_on@)
    }

    /// The whole paths that send a path left.
    pub closed spec fn exact_paths(&self) -> Seq<Seq<char>> {
        words_view(self.equal_to@)
    }

    /// The handler for paths that go left.
    pub closed spec fn left_handler(&self) -> A {
        self.left
    }

    /// The handler for the other paths.
    pub closed spec fn right_handler(&self) -> B {
        self.right
    }

    /// Creates a new split: a path that starts with one of `split_on`, or
    /// equals one of `equal_to`, goes to `left`; any other to `right`.
    pub fn new(left: A, right: B, split_on: Vec<String>, equal_to: Vec<String>) -> (r: ChainSplit<
        A,
        B,
    >)
        ensures
            r.prefixes() == words_view(split_on@),
            r.exact_paths() == words_view(equal_to@),
            r.left_handler() == left,
            r.right_handler() == right,
    {
        ChainSplit { left, right, split_on, equal_to }
    }

    /// Whether a request for `path` goes to the left handler.
    pub fn goes_left(&self, path: &str) -> (r: bool)
        ensures
            r == path_goes_left(self.prefixes(), self.exact_paths(), path@),
    {
        let mut i: usize = 0;
        while i < self.split_on.len()
            invariant
                0 <= i <= self.split_on@.len(),
                forall|k: int| 0 <= k < i ==> !is_prefix(#[trigger] self.prefixes()[k], path@),
            decreases self.split_on@.len() - i,
        {
            if starts_with(path, self.split_on[i].as_str()) {
                assert(self.prefixes()[i as int] == self.split_on@[i as int]@);
                return true;
            }
            i += 1;
        }
        let mut j: usize = 0;
        while j < self.equal_to.len()
            invariant
                0 <= j <= self.equal_to@.len(),
                forall|k: int| 0 <= k < self.prefixes().len() ==> !is_prefix(
                    #[trigger] self.prefixes()[k],
                    path@,
                ),
                forall|k: int| 0 <= k < j ==> #[trigger] self.exact_paths()[k] != path@,
            decreases self.equal_to@.len() - j,
        {
            if crate::names::str_equal(self.equal_to[j].as_str(), path) {
                assert(self.exact_paths()[j as int] == self.equal_to@[j as int]@);
                return true;
            }
            j += 1;
        }
        false
    }

    /// The handler for paths that go left.
    pub fn left(&self) -> (r: &A)
        ensures
            *r == self.left_handler(),
    {
        &self.left
    }

    /// The handler for the other paths.
    pub fn right(&self) -> (r: &B)
        ensures
            *r == self.right_handler(),
    {
        &self.right
    }
}

} // verus!
