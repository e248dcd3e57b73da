//! The mime table: a read-only mapping from file extension to content type,
//! built once at startup. An unmapped extension resolves to `text/plain`;
//! that is policy, not an error.

use vstd::prelude::*;

verus! {

use crate::strutil::{first_key_index, lemma_first_key_index, lemma_lookup_at, lookup_pairs,
    pairs_view, str_eq};

/// Extension-to-content-type table, stored as ordered entries.
#[derive(Clone)]
pub struct MimeTable {
    pub entries: Vec<(String, String)>,
}

impl MimeTable {
    /// The entries seen as pairs of character sequences.
    pub open spec fn view_pairs(&self) -> Seq<(Seq<char>, Seq<char>)> {
        pairs_view(self.entries@)
    }

    /// The content type for `ext`: the stored type, or `text/plain` when the
    /// extension is unmapped.
    pub open spec fn spec_content_type(&self, ext: Seq<char>) -> Seq<char> {
        match lookup_pairs(self.view_pairs(), ext) {
            Some(m) => m,
            None => "text/plain"@,
        }
    }

    pub fn new() -> (r: Self)
        ensures
            r.entries@.len() == 0,
    {
        MimeTable { entries: Vec::new() }
    }

    pub fn insert(&mut self, ext: &str, content_type: &str)
        ensures
            final(self).view_pairs() =~= old(self).view_pairs().push((ext@, content_type@)),
    {
        self.entries.push((String::from_str(ext), String::from_str(content_type)));
    }

    /// The content type for `ext`, falling back to `text/plain`.
    pub fn lookup(&self, ext: &str) -> (r: String)
        ensures
            r@ == self.spec_content_type(ext@),
    {
        let n = self.entries.len();
        let mut i: usize = 0;
        while i < n
            invariant
                0 <= i <= n,
                n == self.entries@.len(),
                forall|j: int| 0 <= j < i ==> self.view_pairs()[j].0 != ext@,
            decreases n - i,
        {
            if str_eq(self.entries[i].0.as_str(), ext) {
                proof {
                    assert(self.view_pairs()[i as int].0 == ext@);
                    lemma_first_key_index(self.view_pairs(), ext@);
                    lemma_lookup_at(self.view_pairs(), ext@);
                    assert(first_key_index(self.view_pairs(), ext@) == i as int);
                    assert(self.view_pairs()[i as int].1 == self.entries@[i as int].1@);
                }
                return self.entries[i].1.clone();
            }
            i = i + 1;
        }
        proof {
            lemma_first_key_index(self.view_pairs(), ext@);
            lemma_lookup_at(self.view_pairs(), ext@);
        }
        String::from_str("text/plain")
    }
}

} // verus!
