use vstd::prelude::*;

verus! {

/// The decoded-sound cache: sound file contents keyed by sound path, loaded
/// once at startup and read on every playback. A path whose data turns out
/// to be undecodable is invalidated so it is not tried again.
pub struct SoundCache {
    entries: Vec<(String, Vec<u8>)>,
}

/// No two entries hold the same path.
spec fn keys_distinct(s: Seq<(String, Vec<u8>)>) -> bool {
    forall|i: int, j: int| 0 <= i < j < s.len() ==> (#[trigger] s[i]).0@ != (#[trigger] s[j]).0@
}

/// The map an entry list stands for.
spec fn entries_map(s: Seq<(String, Vec<u8>)>) -> Map<Seq<char>, Seq<u8>>
    decreases s.len(),
{
    if s.len() == 0 {
        Map::empty()
    } else {
        entries_map(s.drop_last()).insert(s.last().0@, s.last().1@)
    }
}

proof fn lemma_entries_map_no_key(s: Seq<(String, Vec<u8>)>, key: Seq<char>)
    requires
        forall|i: int| 0 <= i < s.len() ==> (#[trigger] s[i]).0@ != key,
    ensures
        !entries_map(s).contains_key(key),
    decreases s.len(),
{
    if s.len() == 0 {
    } else {
        lemma_entries_map_no_key(s.drop_last(), key);
    }
}

proof fn lemma_entries_map_index(s: Seq<(String, Vec<u8>)>, i: int)
    requires
        keys_distinct(s),
        0 <= i < s.len(),
    ensures
        entries_map(s).contains_key(s[i].0@),
        entries_map(s)[s[i].0@] == s[i].1@,
    decreases s.len(),
{
    if i == s.len() - 1 {
    } else {
        lemma_entries_map_index(s.drop_last(), i);
        assert(s.drop_last()[i] == s[i]);
        assert(s[i].0@ != s.last().0@);
    }
}

proof fn lemma_entries_map_remove(s: Seq<(String, Vec<u8>)>, i: int)
    requires
        keys_distinct(s),
        0 <= i < s.len(),
    ensures
        keys_distinct(s.remove(i)),
        entries_map(s.remove(i)) == entries_map(s).remove(s[i].0@),
    decreases s.len(),
{
    s.remove_ensures(i);
    assert(keys_distinct(s.remove(i)));
    if i == s.len() - 1 {
        assert(s.remove(i) =~= s.drop_last());
        lemma_entries_map_no_key(s.drop_last(), s[i].0@);
        assert(entries_map(s.drop_last()) =~= entries_map(s).remove(s[i].0@));
    } else {
        let shorter = s.drop_last();
        lemma_entries_map_remove(shorter, i);
        assert(s.remove(i).drop_last() =~= shorter.remove(i));
        assert(s.remove(i).last() == s.last());
        assert(entries_map(s.remove(i)) == entries_map(shorter.remove(i)).insert(
            s.last().0@,
            s.last().1@,
        ));
        assert(s[i].0@ != s.last().0@);
        assert(entries_map(shorter).remove(s[i].0@).insert(s.last().0@, s.last().1@)
            =~= entries_map(shorter).insert(s.last().0@, s.last().1@).remove(s[i].0@));
    }
}

impl View for SoundCache {
    type V = Map<Seq<char>, Seq<u8>>;

    closed spec fn view(&self) -> Map<Seq<char>, Seq<u8>> {
        entries_map(self.entries@)
    }
}

impl SoundCache {
    #[verifier::type_invariant]
    spec fn inv(self) -> bool {
        keys_distinct(self.entries@)
    }

    /// An empty cache.
    pub fn new() -> (c: SoundCache)
        ensures
            c@ == Map::<Seq<char>, Seq<u8>>::empty(),
    {
        SoundCache { entries: Vec::new() }
    }

    /// The index of the entry holding `key`, if one does.
    fn find_index(&self, key: &String) -> (r: Option<usize>)
        ensures
            match r {
                Some(i) => i < self.entries@.len() && self.entries@[i as int].0@ == key@,
                None => forall|i: int|
                    0 <= i < self.entries@.len() ==> (#[trigger] self.entries@[i]).0@ != key@,
            },
    {
        let n = self.entries.len();
        let mut i: usize = 0;
        while i < n
            invariant
                i <= n,
                n == self.entries@.len(),
                forall|j: int| 0 <= j < i ==> (#[trigger] self.entries@[j]).0@ != key@,
            decreases n - i,
        {
            if self.entries[i].0 == *key {
                return Some(i);
            }
            i += 1;
        }
        None
    }

    /// Whether the cache holds data for this path.
    pub fn contains_key(&self, key: &String) -> (r: bool)
        ensures
            r == self@.contains_key(key@),
    {
        proof {
            use_type_invariant(self);
        }
        match self.find_index(key) {
            Some(i) => {
                proof {
                    lemma_entries_map_index(self.entries@, i as int);
                }
                true
            },
            None => {
                proof {
                    lemma_entries_map_no_key(self.entries@, key@);
                }
                false
            },
        }
    }

    /// The cached data for this path, if present.
    pub fn get(&self, key: &String) -> (r: Option<&Vec<u8>>)
        ensures
            match r {
                Some(v) => self@.contains_key(key@) && v@ == self@[key@],
                None => !self@.contains_key(key@),
            },
    {
        proof {
            use_type_invariant(self);
        }
        match self.find_index(key) {
            Some(i) => {
                proof {
                    lemma_entries_map_index(self.entries@, i as int);
                }
                Some(&self.entries[i].1)
            },
            None => {
                proof {
                    lemma_entries_map_no_key(self.entries@, key@);
                }
                None
            },
        }
    }

    /// Store data for a path not cached yet; report whether it was stored.
    /// A path already present keeps its data.
    pub fn insert(&mut self, key: String, data: Vec<u8>) -> (added: bool)
        ensures
            added <==> !old(self)@.contains_key(key@),
            added ==> final(self)@ == old(self)@.insert(key@, data@),
            !added ==> final(self)@ == old(self)@,
    {
        proof {
            use_type_invariant(&*self);
        }
        match self.find_index(&key) {
            Some(i) => {
                proof {
                    lemma_entries_map_index(self.entries@, i as int);
                }
                false
            },
            None => {
                proof {
                    lemma_entries_map_no_key(self.entries@, key@);
                }
                let ghost before = self.entries@;
                let mut entries: Vec<(String, Vec<u8>)> = Vec::new();
                core::mem::swap(&mut entries, &mut self.entries);
                entries.push((key, data));
                core::mem::swap(&mut entries, &mut self.entries);
                proof {
                    assert(self.entries@.drop_last() =~= before);
                }
                true
            },
        }
    }

    /// Drop whatever is cached for this path; a path not cached leaves the
    /// cache unchanged.
    pub fn invalidate(&mut self, key: &String)
        ensures
            final(self)@ == old(self)@.remove(key@),
    {
        proof {
            use_type_invariant(&*self);
        }
        match self.find_index(key) {
            Some(i) => {
                proof {
                    lemma_entries_map_remove(self.entries@, i as int);
                }
                let mut entries: Vec<(String, Vec<u8>)> = Vec::new();
                core::mem::swap(&mut entries, &mut self.entries);
                entries.remove(i);
                core::mem::swap(&mut entries, &mut self.entries);
            },
            None => {
                proof {
                    lemma_entries_map_no_key(self.entries@, key@);
                    assert(entries_map(self.entries@).remove(key@) =~= entries_map(
                        self.entries@,
                    ));
                }
            },
        }
    }
}

} // verus!
