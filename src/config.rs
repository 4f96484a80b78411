use vstd::prelude::*;

verus! {

/// The map that an ordered list of (namespace, command) entries stands for:
/// a later entry for a key overrides an earlier one.
pub open spec fn entries_map(entries: Seq<(String, String)>) -> Map<Seq<char>, Seq<char>>
    decreases entries.len(),
{
    if entries.len() == 0 {
        Map::empty()
    } else {
        entries_map(entries.drop_last()).insert(entries.last().0@, entries.last().1@)
    }
}

/// No namespace occurs twice among the entries.
pub open spec fn keys_unique(entries: Seq<(String, String)>) -> bool {
    forall|i: int, j: int|
        0 <= i < j < entries.len() ==> #[trigger] entries[i].0@ != #[trigger] entries[j].0@
}

proof fn lemma_entries_map_keys(entries: Seq<(String, String)>, k: Seq<char>)
    ensures
        entries_map(entries).contains_key(k) <==> exists|i: int|
            0 <= i < entries.len() && #[trigger] entries[i].0@ == k,
    decreases entries.len(),
{
    if entries.len() > 0 {
        let prefix = entries.drop_last();
        lemma_entries_map_keys(prefix, k);
        if entries_map(prefix).contains_key(k) {
            let i = choose|i: int| 0 <= i < prefix.len() && #[trigger] prefix[i].0@ == k;
            assert(entries[i].0@ == k);
        }
        if exists|i: int| 0 <= i < entries.len() && #[trigger] entries[i].0@ == k {
            let i = choose|i: int| 0 <= i < entries.len() && #[trigger] entries[i].0@ == k;
            if i < entries.len() - 1 {
                assert(prefix[i].0@ == k);
            }
        }
    }
}

proof fn lemma_entries_map_value(entries: Seq<(String, String)>, i: int)
    requires
        keys_unique(entries),
        0 <= i < entries.len(),
    ensures
        entries_map(entries).contains_key(entries[i].0@),
        entries_map(entries)[entries[i].0@] == entries[i].1@,
    decreases entries.len(),
{
    let prefix = entries.drop_last();
    if i < entries.len() - 1 {
        assert(prefix[i] == entries[i]);
        lemma_entries_map_value(prefix, i);
        assert(entries[i].0@ != entries.last().0@);
    }
}

/// The tracked namespaces and the shell command that dismisses each of them.
pub struct LayerConfig {
    entries: Vec<(String, String)>,
}

impl LayerConfig {
    /// The namespace to command mapping.
    pub closed spec fn view(&self) -> Map<Seq<char>, Seq<char>> {
        entries_map(self.entries@)
    }

    /// Each namespace is stored once.
    #[verifier::type_invariant]
    closed spec fn wf(&self) -> bool {
        keys_unique(self.entries@)
    }

    /// An empty configuration: no namespace is tracked.
    pub fn new() -> (r: LayerConfig)
        ensures
            r@ == Map::<Seq<char>, Seq<char>>::empty(),
    {
        LayerConfig { entries: Vec::new() }
    }

    /// Index of the entry for `ns`, if there is one.
    fn position(&self, ns: &String) -> (r: Option<usize>)
        ensures
            match r {
                Some(i) => i < self.entries@.len() && self.entries@[i as int].0@ == ns@,
                None => forall|i: int|
                    0 <= i < self.entries@.len() ==> #[trigger] self.entries@[i].0@ != ns@,
            },
    {
        let mut i: usize = 0;
        while i < self.entries.len()
            invariant
                i <= self.entries@.len(),
                forall|j: int| 0 <= j < i ==> #[trigger] self.entries@[j].0@ != ns@,
            decreases self.entries@.len() - i,
        {
            if self.entries[i].0 == *ns {
                return Some(i);
            }
            i = i + 1;
        }
        None
    }

    /// Whether `ns` is a tracked namespace.
    pub fn contains_key(&self, ns: &String) -> (r: bool)
        ensures
            r == self@.contains_key(ns@),
    {
        proof {
            use_type_invariant(&*self);
            lemma_entries_map_keys(self.entries@, ns@);
        }
        self.position(ns).is_some()
    }

    /// The dismiss command configured for `ns`.
    pub fn get(&self, ns: &String) -> (r: Option<String>)
        ensures
            match r {
                Some(cmd) => self@.contains_key(ns@) && cmd@ == self@[ns@],
                None => !self@.contains_key(ns@),
            },
    {
        proof {
            use_type_invariant(&*self);
            lemma_entries_map_keys(self.entries@, ns@);
        }
        match self.position(ns) {
            Some(i) => {
                proof {
                    lemma_entries_map_value(self.entries@, i as int);
                }
                Some(self.entries[i].1.clone())
            },
            None => None,
        }
    }

    /// Sets the dismiss command of `ns`, replacing any earlier one.
    pub fn insert(&mut self, ns: String, cmd: String)
        ensures
            final(self)@ == old(self)@.insert(ns@, cmd@),
    {
        proof {
            use_type_invariant(&*self);
            lemma_entries_map_keys(self.entries@, ns@);
        }
        let pos = self.position(&ns);
        let mut entries: Vec<(String, String)> = Vec::new();
        std::mem::swap(&mut self.entries, &mut entries);
        match pos {
            Some(i) => {
                let ghost before = entries@;
                entries.set(i, (ns, cmd));
                proof {
                    assert(keys_unique(entries@)) by {
                        assert forall|a: int, b: int|
                            0 <= a < b < entries@.len() implies #[trigger] entries@[a].0@
                            != #[trigger] entries@[b].0@ by {
                            assert(before[a].0@ != before[b].0@);
                        }
                    }
                    assert(entries_map(entries@) =~= entries_map(before).insert(ns@, cmd@)) by {
                        assert forall|k: Seq<char>|
                            #[trigger] entries_map(entries@).contains_key(k)
                            == entries_map(before).insert(ns@, cmd@).contains_key(k) by {
                            lemma_entries_map_keys(entries@, k);
                            lemma_entries_map_keys(before, k);
                            assert(entries@[i as int].0@ == ns@);
                            if k != ns@ && exists|j: int| 0 <= j < before.len() && #[trigger] before[j].0@ == k {
                                let j = choose|j: int| 0 <= j < before.len() && #[trigger] before[j].0@ == k;
                                assert(entries@[j].0@ == k);
                            }
                            if exists|j: int| 0 <= j < entries@.len() && #[trigger] entries@[j].0@ == k {
                                let j = choose|j: int| 0 <= j < entries@.len() && #[trigger] entries@[j].0@ == k;
                                if j != i {
                                    assert(before[j].0@ == k);
                                }
                            }
                        }
                        assert forall|k: Seq<char>|
                            #[trigger] entries_map(entries@).contains_key(k) implies
                            entries_map(entries@)[k] == entries_map(before).insert(ns@, cmd@)[k] by {
                            lemma_entries_map_keys(entries@, k);
                            let j = choose|j: int| 0 <= j < entries@.len() && #[trigger] entries@[j].0@ == k;
                            lemma_entries_map_value(entries@, j);
                            if j != i {
                                lemma_entries_map_value(before, j);
                            }
                        }
                    }
                }
            },
            None => {
                let ghost before = entries@;
                entries.push((ns, cmd));
                proof {
                    assert(entries@.drop_last() =~= before);
                    assert(keys_unique(entries@)) by {
                        assert forall|a: int, b: int|
                            0 <= a < b < entries@.len() implies #[trigger] entries@[a].0@
                            != #[trigger] entries@[b].0@ by {
                            if b < before.len() {
                                assert(before[a].0@ != before[b].0@);
                            } else {
                                assert(before[a].0@ != ns@);
                            }
                        }
                    }
                }
            },
        }
        std::mem::swap(&mut self.entries, &mut entries);
    }

    /// Number of tracked namespaces.
    pub fn len(&self) -> (r: usize)
        ensures
            r == self@.len(),
    {
        proof {
            use_type_invariant(self);
            lemma_unique_len(self.entries@);
        }
        self.entries.len()
    }

    /// Whether no namespace is tracked.
    pub fn is_empty(&self) -> (r: bool)
        ensures
            r == (self@ == Map::<Seq<char>, Seq<char>>::empty()),
    {
        proof {
            use_type_invariant(self);
            lemma_unique_len(self.entries@);
            if self.entries@.len() > 0 {
                lemma_entries_map_value(self.entries@, 0);
            }
        }
        self.entries.len() == 0
    }
}

proof fn lemma_unique_len(entries: Seq<(String, String)>)
    requires
        keys_unique(entries),
    ensures
        entries_map(entries).dom().finite(),
        entries_map(entries).len() == entries.len(),
    decreases entries.len(),
{
    if entries.len() > 0 {
        let prefix = entries.drop_last();
        lemma_unique_len(prefix);
        lemma_entries_map_keys(prefix, entries.last().0@);
        if entries_map(prefix).contains_key(entries.last().0@) {
            let i = choose|i: int| 0 <= i < prefix.len() && #[trigger] prefix[i].0@ == entries.last().0@;
            assert(entries[i].0@ == entries[entries.len() - 1].0@);
        }
    }
}

} // verus!
