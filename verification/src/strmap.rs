//! A string-to-string map with a deterministic iteration order.
//!
//! The wire format does not define an entry order, so the encoder commits
//! to insertion order to keep its output reproducible. Keys are unique, as
//! in any map: inserting an existing key replaces its value in place.

use vstd::prelude::*;

verus! {

/// Entry list `s` has a binding for key `k`.
pub open spec fn seq_has_key(s: Seq<(Seq<char>, Seq<char>)>, k: Seq<char>) -> bool {
    exists|i: int| 0 <= i < s.len() && s[i].0 == k
}

/// No two entries of `s` share a key.
pub open spec fn distinct_keys(s: Seq<(Seq<char>, Seq<char>)>) -> bool {
    forall|i: int, j: int| #![trigger s[i], s[j]] 0 <= i < j < s.len() ==> s[i].0 != s[j].0
}

/// An insertion-ordered map from strings to strings.
pub struct StringMap {
    entries: Vec<(String, String)>,
}

impl View for StringMap {
    type V = Seq<(Seq<char>, Seq<char>)>;

    closed spec fn view(&self) -> Seq<(Seq<char>, Seq<char>)> {
        self.entries.deep_view()
    }
}

impl StringMap {
    /// Well-formedness: the entry keys are pairwise distinct.
    pub open spec fn wf(&self) -> bool {
        distinct_keys(self@)
    }

    /// Creates an empty map.
    pub fn new() -> (m: StringMap)
        ensures
            m@ == Seq::<(Seq<char>, Seq<char>)>::empty(),
            m.wf(),
    {
        StringMap { entries: Vec::new() }
    }

    /// Number of entries.
    pub fn len(&self) -> (n: usize)
        ensures
            n == self@.len(),
    {
        self.entries.len()
    }

    /// Binds `key` to `value`: replaces the value in place when the key is
    /// already present, else appends the new entry.
    pub fn insert(&mut self, key: String, value: String)
        requires
            old(self).wf(),
        ensures
            final (self).wf(),
            seq_has_key(old(self)@, key@) ==> exists|i: int|
                0 <= i < old(self)@.len() && old(self)@[i].0 == key@ && final (self)@ == old(
                    self,
                )@.update(i, (key@, value@)),
            !seq_has_key(old(self)@, key@) ==> final (self)@ == old(self)@.push((key@, value@)),
    {
        let n = self.entries.len();
        let mut i: usize = 0;
        while i < n
            invariant
                old(self).wf(),
                n == self.entries.len(),
                0 <= i <= n,
                *self == *old(self),
                forall|j: int| 0 <= j < i ==> self@[j].0 != key@,
            decreases n - i,
        {
            if self.entries[i].0 == key {
                proof {
                    assert(self@[i as int].0 == key@);
                }
                self.entries.set(i, (key, value));
                proof {
                    assert(self@ =~= old(self)@.update(i as int, (key@, value@)));
                    assert forall|a: int, b: int| 0 <= a < b < self@.len() implies self@[a].0
                        != self@[b].0 by {
                        assert(self@[a].0 == old(self)@[a].0);
                        assert(self@[b].0 == old(self)@[b].0);
                    }
                }
                return ;
            }
            i = i + 1;
        }
        self.entries.push((key, value));
        proof {
            assert(self@ =~= old(self)@.push((key@, value@)));
            assert forall|a: int, b: int| 0 <= a < b < self@.len() implies self@[a].0
                != self@[b].0 by {
                if b < old(self)@.len() {
                    assert(self@[a].0 == old(self)@[a].0);
                    assert(self@[b].0 == old(self)@[b].0);
                } else {
                    assert(self@[a].0 == old(self)@[a].0);
                    assert(self@[b] == (key@, value@));
                }
            }
        }
    }

    /// Read access to the entry at position `i`, in insertion order.
    pub fn entry_at(&self, i: usize) -> (e: &(String, String))
        requires
            i < self@.len(),
        ensures
            self@[i as int] == (e.0@, e.1@),
    {
        &self.entries[i]
    }
}

} // verus!
