use vstd::prelude::*;

verus! {

/// The map that a list of (name, value) entries describes: a later entry for
/// a name replaces an earlier one.
pub open spec fn entries_map(s: Seq<(String, String)>) -> Map<Seq<char>, Seq<char>>
    decreases s.len(),
{
    if s.len() == 0 {
        Map::empty()
    } else {
        entries_map(s.drop_last()).insert(s.last().0@, s.last().1@)
    }
}

/// The names that occur in a list of entries.
pub open spec fn entry_names(s: Seq<(String, String)>) -> Set<Seq<char>> {
    Set::new(|k: Seq<char>| exists|i: int| 0 <= i < s.len() && #[trigger] s[i].0@ == k)
}

/// Every name of the list is a key of its map, and nothing else is.
pub proof fn lemma_entries_map_dom(s: Seq<(String, String)>)
    ensures
        entries_map(s).dom() == entry_names(s),
    decreases s.len(),
{
    if s.len() > 0 {
        let t = s.drop_last();
        lemma_entries_map_dom(t);
        assert forall|k: Seq<char>| entry_names(s).contains(k) implies entries_map(s).dom().contains(
            k,
        ) by {
            let i = choose|i: int| 0 <= i < s.len() && #[trigger] s[i].0@ == k;
            if i < s.len() - 1 {
                assert(t[i].0@ == k);
                assert(entry_names(t).contains(k));
            }
        };
        assert forall|k: Seq<char>| entries_map(s).dom().contains(k) implies entry_names(s).contains(
            k,
        ) by {
            if k == s.last().0@ {
                assert(s[s.len() - 1].0@ == k);
            } else {
                assert(entry_names(t).contains(k));
                let i = choose|i: int| 0 <= i < t.len() && #[trigger] t[i].0@ == k;
                assert(s[i].0@ == k);
            }
        };
        assert(entries_map(s).dom() =~= entry_names(s));
    } else {
        assert(entries_map(s).dom() =~= entry_names(s));
    }
}

/// A list of entries describes a finite map.
pub proof fn lemma_entries_map_finite(s: Seq<(String, String)>)
    ensures
        entries_map(s).dom().finite(),
    decreases s.len(),
{
    if s.len() > 0 {
        lemma_entries_map_finite(s.drop_last());
    }
}

/// Entries past position `i` that do not name `k` leave what `k` maps to
/// unchanged.
proof fn lemma_entries_map_prefix(s: Seq<(String, String)>, k: Seq<char>, i: int)
    requires
        0 <= i <= s.len(),
        forall|j: int| i <= j < s.len() ==> s[j].0@ != k,
    ensures
        entries_map(s).contains_key(k) == entries_map(s.take(i)).contains_key(k),
        entries_map(s).contains_key(k) ==> entries_map(s)[k] == entries_map(s.take(i))[k],
    decreases s.len() - i,
{
    if i < s.len() {
        assert(s.drop_last() =~= s.take(s.len() - 1));
        lemma_entries_map_prefix(s.drop_last(), k, i);
        assert(s.drop_last().take(i) =~= s.take(i));
    } else {
        assert(s.take(i) =~= s);
    }
}

/// A snapshot of the process environment: variable names mapped to their
/// values.
pub struct EnvironmentMap {
    entries: Vec<(String, String)>,
}

impl View for EnvironmentMap {
    type V = Map<Seq<char>, Seq<char>>;

    closed spec fn view(&self) -> Map<Seq<char>, Seq<char>> {
        entries_map(self.entries@)
    }
}

impl EnvironmentMap {
    /// An empty snapshot.
    pub fn new() -> (r: EnvironmentMap)
        ensures
            r@ == Map::<Seq<char>, Seq<char>>::empty(),
    {
        EnvironmentMap { entries: Vec::new() }
    }

    /// Records `value` under `key`, replacing what `key` held before.
    pub fn insert(&mut self, key: String, value: String)
        ensures
            final(self)@ == old(self)@.insert(key@, value@),
    {
        let ghost before = self.entries@;
        self.entries.push((key, value));
        assert(self.entries@.drop_last() =~= before);
    }

    /// A snapshot holds finitely many variables.
    pub proof fn lemma_dom_finite(&self)
        ensures
            self@.dom().finite(),
    {
        lemma_entries_map_finite(self.entries@);
    }

    /// The position of the last entry named `key`, if any.
    fn find(&self, key: &String) -> (r: Option<usize>)
        ensures
            match r {
                Some(i) => i < self.entries.len() && self.entries@[i as int].0@ == key@
                    && self@.contains_key(key@) && self@[key@] == self.entries@[i as int].1@,
                None => !self@.contains_key(key@),
            },
    {
        let mut i: usize = self.entries.len();
        while i > 0
            invariant
                i <= self.entries.len(),
                forall|j: int| i <= j < self.entries.len() ==> self.entries@[j].0@ != key@,
            decreases i,
        {
            if self.entries[i - 1].0 == *key {
                proof {
                    let s = self.entries@;
                    lemma_entries_map_prefix(s, key@, i as int);
                    assert(s.take(i as int).drop_last() =~= s.take(i - 1));
                }
                return Some(i - 1);
            }
            i = i - 1;
        }
        proof {
            lemma_entries_map_prefix(self.entries@, key@, 0);
        }
        None
    }

    /// The value recorded under `key`, if any.
    pub fn get(&self, key: &str) -> (r: Option<&String>)
        ensures
            match r {
                Some(v) => self@.contains_key(key@) && v@ == self@[key@],
                None => !self@.contains_key(key@),
            },
    {
        match self.find(&key.to_owned()) {
            Some(i) => Some(&self.entries[i].1),
            None => None,
        }
    }

    /// Whether `key` is recorded.
    pub fn contains_key(&self, key: &str) -> (r: bool)
        ensures
            r == self@.contains_key(key@),
    {
        self.find(&key.to_owned()).is_some()
    }

    /// The recorded names; a name may occur more than once.
    pub fn names(&self) -> (r: Vec<String>)
        ensures
            forall|k: Seq<char>|
                self@.contains_key(k) <==> exists|j: int| 0 <= j < r.len() && #[trigger] r@[j]@ == k,
    {
        let mut r: Vec<String> = Vec::new();
        let mut i: usize = 0;
        while i < self.entries.len()
            invariant
                i <= self.entries.len(),
                r@.len() == i,
                forall|j: int| 0 <= j < i ==> r@[j]@ == self.entries@[j].0@,
            decreases self.entries.len() - i,
        {
            r.push(self.entries[i].0.clone());
            i = i + 1;
        }
        proof {
            let s = self.entries@;
            lemma_entries_map_dom(s);
            assert forall|k: Seq<char>|
                self@.contains_key(k) <==> exists|j: int|
                    0 <= j < r.len() && #[trigger] r@[j]@ == k by {
                if self@.contains_key(k) {
                    assert(entry_names(s).contains(k));
                    let j = choose|j: int| 0 <= j < s.len() && #[trigger] s[j].0@ == k;
                    assert(r@[j]@ == k);
                }
                if exists|j: int| 0 <= j < r.len() && #[trigger] r@[j]@ == k {
                    let j = choose|j: int| 0 <= j < r.len() && #[trigger] r@[j]@ == k;
                    assert(s[j].0@ == k);
                    assert(entry_names(s).contains(k));
                }
            };
        }
        r
    }
}

} // verus!
