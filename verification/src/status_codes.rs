//! The status table: a read-only mapping from numeric status code to reason
//! phrase, built once at startup and shared for the process lifetime. A
//! missing code resolves to the empty phrase; that is policy, not an error.

use vstd::prelude::*;

verus! {

/// The value stored for the first entry with code `k`, if any.
pub open spec fn lookup_code(s: Seq<(u16, Seq<char>)>, k: u16) -> Option<Seq<char>>
    decreases s.len(),
{
    if s.len() == 0 {
        None
    } else if s[0].0 == k {
        Some(s[0].1)
    } else {
        lookup_code(s.drop_first(), k)
    }
}

/// Code-to-reason-phrase table, stored as ordered entries.
#[derive(Clone)]
pub struct StatusTable {
    pub entries: Vec<(u16, String)>,
}

impl StatusTable {
    /// The entries with the phrase seen as a character sequence.
    pub open spec fn view_pairs(&self) -> Seq<(u16, Seq<char>)> {
        self.entries@.map_values(|p: (u16, String)| (p.0, p.1@))
    }

    /// The reason phrase for `code`: the stored phrase, or empty when the
    /// code is unknown.
    pub open spec fn spec_message(&self, code: u16) -> Seq<char> {
        match lookup_code(self.view_pairs(), code) {
            Some(m) => m,
            None => Seq::<char>::empty(),
        }
    }

    pub fn new() -> (r: Self)
        ensures
            r.entries@.len() == 0,
    {
        StatusTable { entries: Vec::new() }
    }

    pub fn insert(&mut self, code: u16, message: &str)
        ensures
            final(self).view_pairs() =~= old(self).view_pairs().push((code, message@)),
    {
        self.entries.push((code, String::from_str(message)));
    }

    /// The reason phrase for `code`, or the empty string when unknown.
    pub fn lookup(&self, code: u16) -> (r: String)
        ensures
            r@ == self.spec_message(code),
    {
        let n = self.entries.len();
        let mut i: usize = 0;
        while i < n
            invariant
                0 <= i <= n,
                n == self.entries@.len(),
                forall|j: int| 0 <= j < i ==> self.view_pairs()[j].0 != code,
            decreases n - i,
        {
            if self.entries[i].0 == code {
                proof {
                    lemma_lookup_code_at(self.view_pairs(), code, i as int);
                }
                return self.entries[i].1.clone();
            }
            i = i + 1;
        }
        proof {
            lemma_lookup_code_absent(self.view_pairs(), code);
        }
        String::new()
    }
}

/// Looking a code up returns the value at its earliest index.
pub proof fn lemma_lookup_code_at(s: Seq<(u16, Seq<char>)>, k: u16, i: int)
    requires
        0 <= i < s.len(),
        s[i].0 == k,
        forall|j: int| 0 <= j < i ==> s[j].0 != k,
    ensures
        lookup_code(s, k) == Some(s[i].1),
    decreases s.len(),
{
    if i > 0 {
        assert forall|j: int| 0 <= j < i - 1 implies s.drop_first()[j].0 != k by {
            assert(s.drop_first()[j] == s[j + 1]);
        }
        assert(s.drop_first()[i - 1] == s[i]);
        lemma_lookup_code_at(s.drop_first(), k, i - 1);
    }
}

/// A code that appears in no entry looks up to nothing.
proof fn lemma_lookup_code_absent(s: Seq<(u16, Seq<char>)>, k: u16)
    requires
        forall|j: int| 0 <= j < s.len() ==> s[j].0 != k,
    ensures
        lookup_code(s, k) is None,
    decreases s.len(),
{
    if s.len() > 0 {
        assert forall|j: int| 0 <= j < s.drop_first().len() implies s.drop_first()[j].0 != k by {
            assert(s.drop_first()[j] == s[j + 1]);
        }
        lemma_lookup_code_absent(s.drop_first(), k);
    }
}

} // verus!
