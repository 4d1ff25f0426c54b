//! A string-keyed map of environment variables with unique keys.

use vstd::prelude::*;

use crate::text::str_eq;

verus! {

/// The map that a list of entries denotes: later entries override earlier
/// ones with the same key.
pub open spec fn entries_map(s: Seq<(String, String)>) -> Map<Seq<char>, Seq<char>>
    decreases s.len(),
{
    if s.len() == 0 {
        Map::empty()
    } else {
        entries_map(s.drop_last()).insert(s.last().0@, s.last().1@)
    }
}

/// No key occurs twice among the entries.
pub open spec fn unique_keys(s: Seq<(String, String)>) -> bool {
    forall|i: int, j: int| 0 <= i < j < s.len() ==> #[trigger] s[i].0@ != #[trigger] s[j].0@
}

/// Environment variables of a machine, kept in insertion order.
#[derive(Debug, PartialEq, Eq)]
pub struct EnvVars {
    entries: Vec<(String, String)>,
}

pub proof fn lemma_entries_map_dom(s: Seq<(String, String)>, k: Seq<char>)
    ensures
        entries_map(s).contains_key(k) <==> exists|i: int| 0 <= i < s.len() && #[trigger] s[i].0@ == k,
    decreases s.len(),
{
    if s.len() > 0 {
        lemma_entries_map_dom(s.drop_last(), k);
        if entries_map(s.drop_last()).contains_key(k) {
            let i = choose|i: int| 0 <= i < s.drop_last().len() && #[trigger] s.drop_last()[i].0@ == k;
            assert(s[i].0@ == k);
        }
        if exists|i: int| 0 <= i < s.len() && #[trigger] s[i].0@ == k {
            let i = choose|i: int| 0 <= i < s.len() && #[trigger] s[i].0@ == k;
            if i < s.len() - 1 {
                assert(s.drop_last()[i].0@ == k);
            }
        }
    }
}

pub proof fn lemma_entries_map_value(s: Seq<(String, String)>, i: int)
    requires
        unique_keys(s),
        0 <= i < s.len(),
    ensures
        entries_map(s).contains_key(s[i].0@),
        entries_map(s)[s[i].0@] == s[i].1@,
    decreases s.len(),
{
    if i < s.len() - 1 {
        assert(s.drop_last()[i] == s[i]);
        assert(unique_keys(s.drop_last()));
        lemma_entries_map_value(s.drop_last(), i);
        assert(s[i].0@ != s.last().0@);
    }
}

pub proof fn lemma_entries_map_update(s: Seq<(String, String)>, i: int, e: (String, String))
    requires
        unique_keys(s),
        0 <= i < s.len(),
        e.0@ == s[i].0@,
    ensures
        entries_map(s.update(i, e)) =~= entries_map(s).insert(e.0@, e.1@),
        unique_keys(s.update(i, e)),
{
    let t = s.update(i, e);
    assert(unique_keys(t)) by {
        assert forall|a: int, b: int| 0 <= a < b < t.len() implies #[trigger] t[a].0@ != #[trigger] t[b].0@ by {
            assert(s[a].0@ != s[b].0@);
        }
    }
    assert forall|k: Seq<char>| #[trigger] entries_map(t).contains_key(k) == entries_map(s).insert(e.0@, e.1@).contains_key(k) by {
        lemma_entries_map_dom(t, k);
        lemma_entries_map_dom(s, k);
        if exists|j: int| 0 <= j < s.len() && #[trigger] s[j].0@ == k {
            let j = choose|j: int| 0 <= j < s.len() && #[trigger] s[j].0@ == k;
            if j == i {
                assert(t[i].0@ == k);
            } else {
                assert(t[j].0@ == k);
            }
        }
        if exists|j: int| 0 <= j < t.len() && #[trigger] t[j].0@ == k {
            let j = choose|j: int| 0 <= j < t.len() && #[trigger] t[j].0@ == k;
            if j != i {
                assert(s[j].0@ == k);
            }
        }
    }
    assert forall|k: Seq<char>| #[trigger] entries_map(t).contains_key(k) implies entries_map(t)[k] == entries_map(s).insert(e.0@, e.1@)[k] by {
        lemma_entries_map_dom(t, k);
        let j = choose|j: int| 0 <= j < t.len() && #[trigger] t[j].0@ == k;
        lemma_entries_map_value(t, j);
        if j != i {
            lemma_entries_map_value(s, j);
        }
    }
}

impl View for EnvVars {
    type V = Map<Seq<char>, Seq<char>>;

    closed spec fn view(&self) -> Map<Seq<char>, Seq<char>> {
        entries_map(self.entries@)
    }
}

impl EnvVars {
    #[verifier::type_invariant]
    spec fn keys_unique(self) -> bool {
        unique_keys(self.entries@)
    }

    /// The entries in insertion order.
    pub closed spec fn entry_seq(&self) -> Seq<(String, String)> {
        self.entries@
    }

    /// The variables are what their entries set, in order.
    pub proof fn lemma_entries(&self)
        ensures
            self@ == entries_map(self.entry_seq()),
    {
    }

    /// An empty set of variables.
    pub fn new() -> (r: EnvVars)
        ensures
            r@ == Map::<Seq<char>, Seq<char>>::empty(),
            r.entry_seq().len() == 0,
    {
        EnvVars { entries: Vec::new() }
    }

    /// Number of variables.
    pub fn len(&self) -> (r: usize)
        ensures
            r == self@.len(),
            r == self.entry_seq().len(),
    {
        proof {
            use_type_invariant(self);
            self.lemma_len();
        }
        self.entries.len()
    }

    proof fn lemma_len(&self)
        requires
            unique_keys(self.entries@),
        ensures
            self@.len() == self.entries@.len(),
            self@.dom().finite(),
    {
        lemma_unique_map_len(self.entries@);
    }

    /// Whether there are no variables.
    pub fn is_empty(&self) -> (r: bool)
        ensures
            r == (self@.len() == 0),
    {
        self.len() == 0
    }

    /// The value of `key`, if set.
    pub fn get(&self, key: &str) -> (r: Option<&String>)
        ensures
            r matches Some(v) ==> self@.contains_key(key@) && v@ == self@[key@],
            r is None ==> !self@.contains_key(key@),
    {
        proof {
            use_type_invariant(self);
        }
        let mut i: usize = 0;
        while i < self.entries.len()
            invariant
                i <= self.entries@.len(),
                unique_keys(self.entries@),
                forall|j: int| 0 <= j < i ==> #[trigger] self.entries@[j].0@ != key@,
            decreases self.entries.len() - i,
        {
            if str_eq(self.entries[i].0.as_str(), key) {
                proof {
                    lemma_entries_map_value(self.entries@, i as int);
                }
                return Some(&self.entries[i].1);
            }
            i = i + 1;
        }
        proof {
            lemma_entries_map_dom(self.entries@, key@);
        }
        None
    }

    /// The entry at `index` in insertion order.
    pub fn entry(&self, index: usize) -> (r: (&String, &String))
        requires
            index < self.entry_seq().len(),
        ensures
            r.0 == self.entry_seq()[index as int].0,
            r.1 == self.entry_seq()[index as int].1,
            self@.contains_key(r.0@),
            self@[r.0@] == r.1@,
    {
        proof {
            use_type_invariant(self);
            lemma_entries_map_value(self.entries@, index as int);
        }
        (&self.entries[index].0, &self.entries[index].1)
    }

    /// Sets `key` to `value`, replacing an earlier value of `key`.
    pub fn insert(&mut self, key: String, value: String)
        ensures
            final(self)@ == old(self)@.insert(key@, value@),
    {
        proof {
            use_type_invariant(&*self);
        }
        let mut i: usize = 0;
        let n = self.entries.len();
        while i < n
            invariant
                n == self.entries@.len(),
                self.entries@ == old(self).entries@,
                i <= n,
                unique_keys(self.entries@),
                forall|j: int| 0 <= j < i ==> #[trigger] self.entries@[j].0@ != key@,
            decreases n - i,
        {
            if self.entries[i].0 == key {
                let ghost old_entries = self.entries@;
                proof {
                    lemma_entries_map_update(old_entries, i as int, (key, value));
                }
                let mut entries: Vec<(String, String)> = Vec::new();
                std::mem::swap(&mut entries, &mut self.entries);
                entries.set(i, (key, value));
                self.entries = entries;
                return;
            }
            i = i + 1;
        }
        let ghost old_entries = self.entries@;
        let mut entries: Vec<(String, String)> = Vec::new();
                std::mem::swap(&mut entries, &mut self.entries);
        entries.push((key, value));
        proof {
            assert(entries@.drop_last() =~= old_entries);
            assert forall|a: int, b: int| 0 <= a < b < entries@.len() implies #[trigger] entries@[a].0@ != #[trigger] entries@[b].0@ by {
                if b == entries@.len() - 1 {
                    assert(old_entries[a].0@ != key@);
                } else {
                    assert(old_entries[a].0@ != old_entries[b].0@);
                }
            }
        }
        self.entries = entries;
    }
}

impl Clone for EnvVars {
    fn clone(&self) -> (r: EnvVars)
        ensures
            r@ == self@,
            r.entry_seq() == self.entry_seq(),
    {
        proof {
            use_type_invariant(self);
        }
        let mut entries: Vec<(String, String)> = Vec::new();
        let mut i: usize = 0;
        while i < self.entries.len()
            invariant
                i <= self.entries@.len(),
                entries@ == self.entries@.take(i as int),
            decreases self.entries.len() - i,
        {
            entries.push((self.entries[i].0.clone(), self.entries[i].1.clone()));
            assert(entries@ =~= self.entries@.take(i + 1));
            i = i + 1;
        }
        assert(entries@ =~= self.entries@);
        EnvVars { entries }
    }
}

pub proof fn lemma_unique_map_len(s: Seq<(String, String)>)
    requires
        unique_keys(s),
    ensures
        entries_map(s).dom().finite(),
        entries_map(s).len() == s.len(),
    decreases s.len(),
{
    if s.len() > 0 {
        assert(unique_keys(s.drop_last()));
        lemma_unique_map_len(s.drop_last());
        lemma_entries_map_dom(s.drop_last(), s.last().0@);
        if entries_map(s.drop_last()).contains_key(s.last().0@) {
            let i = choose|i: int| 0 <= i < s.drop_last().len() && #[trigger] s.drop_last()[i].0@ == s.last().0@;
            assert(s[i].0@ == s[s.len() - 1].0@);
        }
    }
}

} // verus!
