//! Query parameters by name, each name at most once.

use vstd::prelude::*;

use crate::text::same_text;

verus! {

/// The map that a list of (name, value) entries stands for: a later entry
/// for a name wins over an earlier one.
pub open spec fn entries_map(s: Seq<(String, String)>) -> Map<Seq<char>, Seq<char>>
    decreases s.len(),
{
    if s.len() == 0 {
        Map::empty()
    } else {
        entries_map(s.drop_last()).insert(s.last().0@, s.last().1@)
    }
}

/// No name occurs twice among the entries.
pub open spec fn distinct_names(s: Seq<(String, String)>) -> bool {
    forall|i: int, j: int| 0 <= i < s.len() && 0 <= j < s.len() && i != j ==> s[i].0@ != s[j].0@
}

/// What a list of entries with distinct names holds: each entry's name
/// maps to its value, and nothing else is in the map.
pub proof fn lemma_entries_map(s: Seq<(String, String)>)
    requires
        distinct_names(s),
    ensures
        forall|i: int|
            0 <= i < s.len() ==> #[trigger] entries_map(s).contains_key(s[i].0@) && entries_map(
                s,
            )[s[i].0@] == s[i].1@,
        forall|k: Seq<char>|
            #[trigger] entries_map(s).contains_key(k) ==> exists|i: int|
                0 <= i < s.len() && s[i].0@ == k,
        entries_map(s).dom().finite(),
        entries_map(s).dom().len() == s.len(),
    decreases s.len(),
{
    if s.len() > 0 {
        let t = s.drop_last();
        assert(distinct_names(t)) by {
            assert forall|i: int, j: int|
                0 <= i < t.len() && 0 <= j < t.len() && i != j implies t[i].0@ != t[j].0@ by {
                assert(t[i] == s[i] && t[j] == s[j]);
            }
        }
        lemma_entries_map(t);
        let m = entries_map(t);
        let k = s.last().0@;
        assert(!m.contains_key(k)) by {
            if m.contains_key(k) {
                let i = choose|i: int| 0 <= i < t.len() && t[i].0@ == k;
                assert(t[i] == s[i]);
                assert(s[i].0@ != s[s.len() - 1].0@);
            }
        }
        assert forall|i: int| 0 <= i < s.len() implies #[trigger] entries_map(s).contains_key(
            s[i].0@,
        ) && entries_map(s)[s[i].0@] == s[i].1@ by {
            if i < s.len() - 1 {
                assert(t[i] == s[i]);
                assert(s[i].0@ != k);
            }
        }
        assert forall|q: Seq<char>| #[trigger] entries_map(s).contains_key(q) implies exists|i: int|
            0 <= i < s.len() && s[i].0@ == q by {
            if q != k {
                let i = choose|i: int| 0 <= i < t.len() && t[i].0@ == q;
                assert(t[i] == s[i]);
            } else {
                assert(s[s.len() - 1].0@ == q);
            }
        }
    }
}

/// Entries with the same names and values stand for the same map.
proof fn lemma_same_names_same_map(a: Seq<(String, String)>, b: Seq<(String, String)>)
    requires
        a.len() == b.len(),
        forall|j: int| 0 <= j < a.len() ==> #[trigger] a[j].0@ == b[j].0@ && a[j].1@ == b[j].1@,
    ensures
        entries_map(a) == entries_map(b),
        distinct_names(a) == distinct_names(b),
    decreases a.len(),
{
    if a.len() > 0 {
        let (c, d) = (a.drop_last(), b.drop_last());
        assert forall|j: int| 0 <= j < c.len() implies #[trigger] c[j].0@ == d[j].0@ && c[j].1@ == d[j].1@ by {
            assert(c[j] == a[j] && d[j] == b[j]);
        }
        lemma_same_names_same_map(c, d);
        assert(a.last().0@ == b.last().0@);
    }
    assert(distinct_names(a) == distinct_names(b)) by {
        if distinct_names(a) {
            assert forall|i: int, j: int| 0 <= i < b.len() && 0 <= j < b.len() && i != j implies b[i].0@ != b[j].0@ by {
                assert(a[i].0@ == b[i].0@ && a[j].0@ == b[j].0@);
            }
        }
        if distinct_names(b) {
            assert forall|i: int, j: int| 0 <= i < a.len() && 0 <= j < a.len() && i != j implies a[i].0@ != a[j].0@ by {
                assert(a[i].0@ == b[i].0@ && a[j].0@ == b[j].0@);
            }
        }
    }
}

/// Query parameters by name. No name occurs twice, so the entries stand for
/// a map from names to values. (std's `HashMap` is specified in vstd only
/// for keys with a key model, which `String` has not, so the map is kept as
/// a list of entries.)
#[derive(Debug)]
pub struct ParamMap {
    entries: Vec<(String, String)>,
}

impl View for ParamMap {
    type V = Map<Seq<char>, Seq<char>>;

    closed spec fn view(&self) -> Map<Seq<char>, Seq<char>> {
        entries_map(self.entries@)
    }
}

impl Clone for ParamMap {
    fn clone(&self) -> (r: ParamMap)
        ensures
            r@ == self@,
    {
        proof {
            use_type_invariant(self);
        }
        let n = self.entries.len();
        let mut entries: Vec<(String, String)> = Vec::new();
        let mut i: usize = 0;
        while i < n
            invariant
                n == self.entries@.len(),
                i <= n,
                entries@.len() == i,
                forall|j: int|
                    0 <= j < i ==> #[trigger] entries@[j].0@ == self.entries@[j].0@ && entries@[j].1@
                        == self.entries@[j].1@,
            decreases n - i,
        {
            let (name, value) = (self.entries[i].0.clone(), self.entries[i].1.clone());
            entries.push((name, value));
            i = i + 1;
        }
        proof {
            lemma_same_names_same_map(entries@, self.entries@);
        }
        ParamMap { entries }
    }
}

impl ParamMap {
    #[verifier::type_invariant]
    closed spec fn names_distinct(self) -> bool {
        distinct_names(self.entries@)
    }

    /// No parameters.
    pub fn new() -> (r: ParamMap)
        ensures
            r@ == Map::<Seq<char>, Seq<char>>::empty(),
    {
        ParamMap { entries: Vec::new() }
    }

    /// Sets `name` to `value`, replacing the value it had.
    pub fn insert(&mut self, name: String, value: String)
        ensures
            final(self)@ == old(self)@.insert(name@, value@),
    {
        proof {
            use_type_invariant(&*self);
        }
        let mut entries: Vec<(String, String)> = Vec::new();
        std::mem::swap(&mut entries, &mut self.entries);
        let ghost before = entries@;
        let n = entries.len();
        let mut i: usize = 0;
        let mut found = n;
        while found == n && i < n
            invariant
                n == entries@.len(),
                entries@ == before,
                i <= n,
                found == n || (found < n && entries@[found as int].0@ == name@),
                found == n ==> forall|j: int| 0 <= j < i ==> entries@[j].0@ != name@,
            decreases n - i, found,
        {
            if same_text(entries[i].0.as_str(), name.as_str()) {
                found = i;
            } else {
                i = i + 1;
            }
        }
        let ghost k = name@;
        let ghost v = value@;
        if found < n {
            entries.set(found, (name, value));
            proof {
                let after = entries@;
                lemma_entries_map(before);
                assert(distinct_names(after)) by {
                    assert forall|a: int, b: int|
                        0 <= a < after.len() && 0 <= b < after.len() && a != b implies after[a].0@
                        != after[b].0@ by {
                        if a != found && b != found {
                            assert(after[a] == before[a] && after[b] == before[b]);
                        } else if a == found {
                            assert(after[b] == before[b]);
                        } else {
                            assert(after[a] == before[a]);
                        }
                    }
                }
                lemma_entries_map(after);
                let m0 = entries_map(before);
                let m1 = entries_map(after);
                assert(after[found as int].0@ == k);
                assert forall|q: Seq<char>| m1.contains_key(q) <==> m0.insert(k, v).contains_key(q) by {
                    if m1.contains_key(q) {
                        let j = choose|j: int| 0 <= j < after.len() && after[j].0@ == q;
                        if j != found {
                            assert(after[j] == before[j]);
                            assert(m0.contains_key(before[j].0@));
                        }
                    }
                    if m0.contains_key(q) {
                        let j = choose|j: int| 0 <= j < before.len() && before[j].0@ == q;
                        if j != found {
                            assert(after[j] == before[j]);
                            assert(m1.contains_key(after[j].0@));
                        }
                    }
                    if q == k {
                        assert(m1.contains_key(after[found as int].0@));
                    }
                }
                assert forall|q: Seq<char>| #[trigger] m1.contains_key(q) implies m1[q] == m0.insert(
                    k,
                    v,
                )[q] by {
                    let j = choose|j: int| 0 <= j < after.len() && after[j].0@ == q;
                    if j != found {
                        assert(after[j] == before[j]);
                        assert(m0.contains_key(before[j].0@));
                    } else {
                        assert(m1[after[j].0@] == after[j].1@);
                    }
                }
                assert(m1 =~= m0.insert(k, v));
            }
        } else {
            entries.push((name, value));
            proof {
                let after = entries@;
                assert(after.drop_last() =~= before);
                assert(distinct_names(after)) by {
                    assert forall|a: int, b: int|
                        0 <= a < after.len() && 0 <= b < after.len() && a != b implies after[a].0@
                        != after[b].0@ by {
                        if a < n && b < n {
                            assert(after[a] == before[a] && after[b] == before[b]);
                        } else if a < n {
                            assert(after[a] == before[a]);
                        } else {
                            assert(after[b] == before[b]);
                        }
                    }
                }
            }
        }
        self.entries = entries;
    }

    /// The value of `name`, if it is set.
    pub fn get(&self, name: &str) -> (r: Option<String>)
        ensures
            match r {
                Some(v) => self@.contains_key(name@) && self@[name@] == v@,
                None => !self@.contains_key(name@),
            },
    {
        proof {
            use_type_invariant(self);
            lemma_entries_map(self.entries@);
        }
        let n = self.entries.len();
        let mut i: usize = 0;
        while i < n
            invariant
                n == self.entries@.len(),
                i <= n,
                forall|j: int| 0 <= j < i ==> self.entries@[j].0@ != name@,
            decreases n - i,
        {
            if same_text(self.entries[i].0.as_str(), name) {
                assert(self.entries@[i as int].0@ == name@);
                proof {
                    use_type_invariant(self);
                    lemma_entries_map(self.entries@);
                }
                assert(entries_map(self.entries@).contains_key(self.entries@[i as int].0@));
                return Some(self.entries[i].1.clone());
            }
            i = i + 1;
        }
        None
    }

    /// The number of parameters.
    pub fn len(&self) -> (r: usize)
        ensures
            r == self@.dom().len(),
    {
        proof {
            use_type_invariant(self);
            lemma_entries_map(self.entries@);
        }
        self.entries.len()
    }
}

} // verus!
