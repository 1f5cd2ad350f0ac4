//! The topic directory: the topics one client has created or joined, each
//! name with the identifier it stands for.

use vstd::prelude::*;

verus! {

struct Entry {
    name: String,
    identifier: String,
}

/// A map from topic name to topic identifier. It belongs to one client and is
/// never shared; a name that is recorded again takes the new identifier.
pub struct TopicDirectory {
    entries: Vec<Entry>,
}

/// The names of `entries`, in order.
spec fn names_of(entries: Seq<Entry>) -> Seq<Seq<char>> {
    entries.map_values(|entry: Entry| entry.name@)
}

/// The map that `entries` stands for, where no name occurs twice.
spec fn map_of(entries: Seq<Entry>) -> Map<Seq<char>, Seq<char>> {
    Map::new(
        |name: Seq<char>| names_of(entries).contains(name),
        |name: Seq<char>| entries[names_of(entries).index_of(name)].identifier@,
    )
}

/// Each entry is found under its own name.
proof fn lemma_entry(entries: Seq<Entry>, i: int)
    requires
        names_of(entries).no_duplicates(),
        0 <= i < entries.len(),
    ensures
        map_of(entries).contains_key(entries[i].name@),
        map_of(entries)[entries[i].name@] == entries[i].identifier@,
{
    let names = names_of(entries);
    assert(names[i] == entries[i].name@);
    names.index_of_first_ensures(names[i]);
    let j = names.index_of(names[i]);
    assert(0 <= j < names.len() && names[j] == names[i]);
}

impl TopicDirectory {
    #[verifier::type_invariant]
    spec fn well_formed(&self) -> bool {
        names_of(self.entries@).no_duplicates()
    }

    /// A directory without topics.
    pub fn new() -> (directory: TopicDirectory)
        ensures
            directory@ == Map::<Seq<char>, Seq<char>>::empty(),
    {
        let directory = TopicDirectory { entries: Vec::new() };
        assert(names_of(directory.entries@) =~= Seq::<Seq<char>>::empty());
        assert(directory@ =~= Map::<Seq<char>, Seq<char>>::empty());
        directory
    }

    /// Where `name` stands in the entries, if it is recorded.
    fn position(&self, name: &str) -> (found: Option<usize>)
        ensures
            match found {
                Some(i) => i < self.entries.len() && self.entries[i as int].name@ == name@,
                None => !names_of(self.entries@).contains(name@),
            },
    {
        let key = String::from_str(name);
        let mut i: usize = 0;
        while i < self.entries.len()
            invariant
                i <= self.entries.len(),
                key@ == name@,
                forall|j: int| 0 <= j < i ==> names_of(self.entries@)[j] != name@,
            decreases self.entries.len() - i,
        {
            if self.entries[i].name == key {
                return Some(i);
            }
            i = i + 1;
        }
        None
    }

    /// Whether `name` is recorded.
    pub fn contains_key(&self, name: &str) -> (found: bool)
        ensures
            found == self@.contains_key(name@),
    {
        match self.position(name) {
            Some(i) => {
                assert(names_of(self.entries@)[i as int] == name@);
                true
            },
            None => false,
        }
    }

    /// The identifier recorded for `name`.
    pub fn get(&self, name: &str) -> (found: Option<&String>)
        ensures
            match found {
                Some(identifier) => self@.contains_key(name@) && self@[name@] == identifier@,
                None => !self@.contains_key(name@),
            },
    {
        proof {
            use_type_invariant(self);
        }
        match self.position(name) {
            Some(i) => {
                proof {
                    lemma_entry(self.entries@, i as int);
                }
                Some(&self.entries[i].identifier)
            },
            None => None,
        }
    }

    /// Records `identifier` for `name` and hands back the identifier that
    /// `name` stood for before, if it was recorded.
    pub fn insert(&mut self, name: String, identifier: String) -> (previous: Option<String>)
        ensures
            final(self)@ == old(self)@.insert(name@, identifier@),
            match previous {
                Some(replaced) => old(self)@.contains_key(name@) && old(self)@[name@] == replaced@,
                None => !old(self)@.contains_key(name@),
            },
    {
        proof {
            use_type_invariant(&*self);
        }
        let at = self.position(name.as_str());
        let ghost before = self.entries@;
        let ghost key = name@;
        let ghost value = identifier@;
        let mut entries: Vec<Entry> = Vec::new();
        core::mem::swap(&mut self.entries, &mut entries);
        assert(names_of(self.entries@) =~= Seq::<Seq<char>>::empty());
        entries.push(Entry { name, identifier });
        let previous = match at {
            Some(i) => {
                let replaced = entries.swap_remove(i);
                proof {
                    lemma_entry(before, i as int);
                    assert(names_of(entries@) =~= names_of(before));
                    assert forall|k: Seq<char>| #[trigger]
                        map_of(entries@).contains_key(k) implies map_of(entries@)[k] == map_of(
                        before,
                    ).insert(key, value)[k] by {
                        let names = names_of(before);
                        names.index_of_first_ensures(k);
                        let j = names.index_of(k);
                        assert(names[j] == k);
                        if j != i as int {
                            assert(names[i as int] == key);
                            assert(entries@[j] == before[j]);
                        }
                    }
                    assert(map_of(entries@) =~= map_of(before).insert(key, value));
                }
                Some(replaced.identifier)
            },
            None => {
                proof {
                    let names = names_of(before);
                    assert(names_of(entries@) =~= names.push(key));
                    assert forall|k: Seq<char>| #[trigger]
                        map_of(entries@).contains_key(k) implies map_of(entries@)[k] == map_of(
                        before,
                    ).insert(key, value)[k] by {
                        let after = names_of(entries@);
                        after.index_of_first_ensures(k);
                        let j = after.index_of(k);
                        assert(after[j] == k);
                        if j < before.len() {
                            assert(names[j] == k);
                            lemma_entry(before, j);
                        }
                    }
                    assert forall|k: Seq<char>| map_of(entries@).contains_key(k) <==> map_of(
                        before,
                    ).insert(key, value).contains_key(k) by {
                        let after = names_of(entries@);
                        if names.contains(k) {
                            let j = choose|j: int| 0 <= j < names.len() && names[j] == k;
                            assert(after[j] == k);
                        }
                        if k == key {
                            assert(after[before.len() as int] == k);
                        }
                        if after.contains(k) && k != key {
                            let j = choose|j: int| 0 <= j < after.len() && after[j] == k;
                            assert(names[j] == k);
                        }
                    }
                    assert(map_of(entries@) =~= map_of(before).insert(key, value));
                }
                None
            },
        };
        self.entries = entries;
        previous
    }

    /// How many topics are recorded.
    pub fn len(&self) -> (count: usize)
        ensures
            count == self@.len(),
    {
        proof {
            use_type_invariant(self);
            let names = names_of(self.entries@);
            names.unique_seq_to_set();
            assert(self@.dom() =~= names.to_set());
        }
        self.entries.len()
    }
}

impl Clone for TopicDirectory {
    /// A directory with the same topics.
    fn clone(&self) -> (copy: Self)
        ensures
            copy@ == self@,
    {
        proof {
            use_type_invariant(self);
        }
        let mut entries: Vec<Entry> = Vec::new();
        let mut i: usize = 0;
        while i < self.entries.len()
            invariant
                i <= self.entries.len(),
                names_of(entries@) == names_of(self.entries@).take(i as int),
                forall|j: int| 0 <= j < i ==> entries@[j].identifier@ == self.entries@[j].identifier@,
                entries@.len() == i,
            decreases self.entries.len() - i,
        {
            let entry = &self.entries[i];
            let ghost names_before = names_of(entries@);
            entries.push(Entry { name: entry.name.clone(), identifier: entry.identifier.clone() });
            proof {
                assert(names_of(entries@) =~= names_before.push(entry.name@));
                assert(names_of(self.entries@).take(i + 1) =~= names_of(self.entries@).take(
                    i as int,
                ).push(entry.name@));
            }
            i = i + 1;
        }
        proof {
            assert(names_of(self.entries@).take(i as int) =~= names_of(self.entries@));
            assert(map_of(entries@) =~= map_of(self.entries@));
        }
        TopicDirectory { entries }
    }
}

impl View for TopicDirectory {
    type V = Map<Seq<char>, Seq<char>>;

    closed spec fn view(&self) -> Map<Seq<char>, Seq<char>> {
        map_of(self.entries@)
    }
}

} // verus!
