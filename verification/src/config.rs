//! A configuration snapshot: named sections, each an ordered list of entries
//! in which the last entry of a name is the one that counts.

use vstd::prelude::*;

verus! {

/// The names of a list of entries, in order.
pub open spec fn keys_of<V>(entries: Seq<(String, V)>) -> Seq<Seq<char>> {
    Seq::new(entries.len(), |i: int| entries[i].0@)
}

/// `j` is the place of the last entry named `name`.
pub open spec fn is_last(keys: Seq<Seq<char>>, name: Seq<char>, j: int) -> bool {
    &&& 0 <= j < keys.len()
    &&& keys[j] == name
    &&& forall|i: int| j < i < keys.len() ==> #[trigger] keys[i] != name
}

/// The place of the last entry named `name`, where there is one.
pub open spec fn last_of(keys: Seq<Seq<char>>, name: Seq<char>) -> int {
    choose|j: int| is_last(keys, name, j)
}

/// The mapping that a list of entries stands for: each name that occurs, with
/// the value of its last entry.
pub open spec fn assoc<V>(keys: Seq<Seq<char>>, values: Seq<V>) -> Map<Seq<char>, V> {
    Map::new(|k: Seq<char>| keys.contains(k), |k: Seq<char>| values[last_of(keys, k)])
}

/// A name that occurs among the keys has a last place.
pub proof fn lemma_last_exists(keys: Seq<Seq<char>>, name: Seq<char>)
    requires
        keys.contains(name),
    ensures
        is_last(keys, name, last_of(keys, name)),
    decreases keys.len(),
{
    if keys.last() == name {
        assert(is_last(keys, name, keys.len() - 1));
    } else {
        let i = choose|i: int| 0 <= i < keys.len() && keys[i] == name;
        assert(keys.drop_last()[i] == name);
        lemma_last_exists(keys.drop_last(), name);
        let j = last_of(keys.drop_last(), name);
        assert forall|i: int| j < i < keys.len() implies #[trigger] keys[i] != name by {
            if i < keys.len() - 1 {
                assert(keys.drop_last()[i] != name);
            }
        }
        assert(is_last(keys, name, j));
    }
}

/// The last place of a name is the only one.
pub proof fn lemma_last_is(keys: Seq<Seq<char>>, name: Seq<char>, j: int)
    requires
        is_last(keys, name, j),
    ensures
        last_of(keys, name) == j,
        keys.contains(name),
{
    let k = last_of(keys, name);
    assert(is_last(keys, name, k));
    if k < j {
        assert(keys[j] != name);
    } else if j < k {
        assert(keys[k] != name);
    }
}

/// An entry added at the end sets what its name stands for and nothing else.
pub proof fn lemma_assoc_push<V>(keys: Seq<Seq<char>>, values: Seq<V>, name: Seq<char>, value: V)
    requires
        keys.len() == values.len(),
    ensures
        assoc(keys.push(name), values.push(value)) == assoc(keys, values).insert(name, value),
{
    let keys2 = keys.push(name);
    let values2 = values.push(value);
    let a = assoc(keys2, values2);
    let b = assoc(keys, values).insert(name, value);
    assert forall|k: Seq<char>| a.dom().contains(k) <==> b.dom().contains(k) by {
        if keys.contains(k) {
            let i = choose|i: int| 0 <= i < keys.len() && keys[i] == k;
            assert(keys2[i] == k);
        }
        if keys2.contains(k) && k != name {
            let i = choose|i: int| 0 <= i < keys2.len() && keys2[i] == k;
            assert(keys[i] == k);
        }
        assert(keys2[keys.len() as int] == name);
    }
    assert forall|k: Seq<char>| a.dom().contains(k) implies a[k] == b[k] by {
        if k == name {
            assert(is_last(keys2, k, keys.len() as int));
            lemma_last_is(keys2, k, keys.len() as int);
        } else {
            let i = choose|i: int| 0 <= i < keys2.len() && keys2[i] == k;
            assert(keys[i] == k);
            lemma_last_exists(keys, k);
            let j = last_of(keys, k);
            assert forall|i: int| j < i < keys2.len() implies #[trigger] keys2[i] != k by {
                if i < keys.len() {
                    assert(keys[i] != k);
                }
            }
            assert(keys2[j] == k);
            assert(is_last(keys2, k, j));
            lemma_last_is(keys2, k, j);
        }
    }
    assert(a =~= b);
}

/// A new value at the last place of a name sets what that name stands for and
/// nothing else.
pub proof fn lemma_assoc_update<V>(keys: Seq<Seq<char>>, values: Seq<V>, j: int, value: V)
    requires
        keys.len() == values.len(),
        0 <= j < keys.len(),
        is_last(keys, keys[j], j),
    ensures
        assoc(keys, values.update(j, value)) == assoc(keys, values).insert(keys[j], value),
{
    let a = assoc(keys, values.update(j, value));
    let b = assoc(keys, values).insert(keys[j], value);
    assert forall|k: Seq<char>| a.dom().contains(k) implies a[k] == b[k] by {
        lemma_last_exists(keys, k);
        if k == keys[j] {
            lemma_last_is(keys, k, j);
        } else {
            assert(last_of(keys, k) != j);
        }
    }
    assert(a =~= b);
}

/// The place of the last entry named `name`, if there is one.
pub(crate) fn find_last<V>(entries: &Vec<(String, V)>, name: &str) -> (found: Option<usize>)
    ensures
        match found {
            Some(j) => is_last(keys_of(entries@), name@, j as int),
            None => !keys_of(entries@).contains(name@),
        },
{
    let wanted = name.to_owned();
    let mut found: Option<usize> = None;
    let mut i: usize = 0;
    while i < entries.len()
        invariant
            i <= entries.len(),
            wanted@ == name@,
            match found {
                Some(j) => j < i && entries[j as int].0@ == name@ && forall|k: int|
                    j < k < i ==> (#[trigger] entries[k]).0@ != name@,
                None => forall|k: int| 0 <= k < i ==> (#[trigger] entries[k]).0@ != name@,
            },
        decreases entries.len() - i,
    {
        if entries[i].0 == wanted {
            found = Some(i);
        }
        i += 1;
    }
    proof {
        let keys = keys_of(entries@);
        match found {
            Some(j) => {
                assert(keys[j as int] == name@);
                assert forall|k: int| j < k < keys.len() implies #[trigger] keys[k] != name@ by {
                    assert(entries[k].0@ != name@);
                }
            },
            None => {
                if keys.contains(name@) {
                    let k = choose|k: int| 0 <= k < keys.len() && keys[k] == name@;
                    assert(entries[k].0@ != name@);
                }
            },
        }
    }
    found
}

/// One section of a configuration: an ordered list of `name = value` entries.
#[derive(Debug, Clone)]
pub struct ConfigSection {
    entries: Vec<(String, String)>,
}

impl View for ConfigSection {
    type V = Map<Seq<char>, Seq<char>>;

    /// The mapping from each name to the value of its last entry.
    closed spec fn view(&self) -> Map<Seq<char>, Seq<char>> {
        assoc(keys_of(self.entries@), self.values())
    }
}

impl ConfigSection {
    /// The values of the entries, in order.
    spec fn values(&self) -> Seq<Seq<char>> {
        Seq::new(self.entries@.len(), |i: int| self.entries@[i].1@)
    }

    /// A section's names are finitely many.
    pub proof fn lemma_finite(&self)
        ensures
            self@.dom().finite(),
    {
        let keys = keys_of(self.entries@);
        vstd::seq_lib::seq_to_set_is_finite(keys);
        assert(self@.dom() =~= keys.to_set());
    }

    /// A section without entries.
    pub fn new() -> (section: Self)
        ensures
            section@ == Map::<Seq<char>, Seq<char>>::empty(),
    {
        let section = ConfigSection { entries: Vec::new() };
        assert(section@ =~= Map::<Seq<char>, Seq<char>>::empty());
        section
    }

    /// Adds the entry `name = value` at the end; it replaces what `name` stood
    /// for before.
    pub fn insert(&mut self, name: &str, value: &str)
        ensures
            final(self)@ == old(self)@.insert(name@, value@),
    {
        let ghost keys = keys_of(self.entries@);
        let ghost values = self.values();
        self.entries.push((name.to_owned(), value.to_owned()));
        proof {
            lemma_assoc_push(keys, values, name@, value@);
            assert(keys_of(self.entries@) =~= keys.push(name@));
            assert(self.values() =~= values.push(value@));
        }
    }

    /// The value that `name` stands for, if the section has an entry for it.
    pub fn get(&self, name: &str) -> (value: Option<&String>)
        ensures
            match value {
                Some(v) => self@.dom().contains(name@) && self@[name@] == v@,
                None => !self@.dom().contains(name@),
            },
    {
        match find_last(&self.entries, name) {
            Some(j) => {
                proof {
                    lemma_last_is(keys_of(self.entries@), name@, j as int);
                }
                Some(&self.entries[j].1)
            },
            None => None,
        }
    }

    /// Whether every name of `self` stands for the same value in `other`.
    fn within(&self, other: &ConfigSection) -> (all: bool)
        ensures
            all == self@.submap_of(other@),
    {
        let mut i: usize = 0;
        while i < self.entries.len()
            invariant
                i <= self.entries.len(),
                forall|k: int|
                    0 <= k < i ==> other@.dom().contains(#[trigger] keys_of(self.entries@)[k])
                        && other@[keys_of(self.entries@)[k]] == self@[keys_of(self.entries@)[k]],
            decreases self.entries.len() - i,
        {
            let name = self.entries[i].0.as_str();
            assert(keys_of(self.entries@)[i as int] == name@);
            let same = match (self.get(name), other.get(name)) {
                (Some(a), Some(b)) => *a == *b,
                _ => false,
            };
            if !same {
                assert(self@.dom().contains(name@));
                return false;
            }
            i += 1;
        }
        proof {
            assert forall|k: Seq<char>| self@.dom().contains(k) implies #[trigger] other@.dom().contains(k)
                && self@[k] == other@[k] by {
                let j = choose|j: int| 0 <= j < keys_of(self.entries@).len() && keys_of(self.entries@)[j] == k;
                assert(other@.dom().contains(keys_of(self.entries@)[j]));
            }
        }
        true
    }

    /// Whether two sections stand for the same mapping, whatever the order of
    /// their entries.
    pub fn compare(&self, other: &ConfigSection) -> (same: bool)
        ensures
            same == (self@ == other@),
    {
        let same = self.within(other) && other.within(self);
        proof {
            if same {
                assert(self@ =~= other@);
            }
        }
        same
    }
}

/// A configuration snapshot: an ordered list of named sections.
#[derive(Debug, Clone)]
pub struct BuckConfig {
    sections: Vec<(String, ConfigSection)>,
}

impl View for BuckConfig {
    type V = Map<Seq<char>, Map<Seq<char>, Seq<char>>>;

    /// The mapping from each section name to what its last section holds.
    closed spec fn view(&self) -> Map<Seq<char>, Map<Seq<char>, Seq<char>>> {
        assoc(keys_of(self.sections@), self.contents())
    }
}

impl BuckConfig {
    /// What the sections hold, in order.
    spec fn contents(&self) -> Seq<Map<Seq<char>, Seq<char>>> {
        Seq::new(self.sections@.len(), |i: int| self.sections@[i].1@)
    }

    /// What the section `name` holds, if the configuration has it.
    pub open spec fn section(&self, name: Seq<char>) -> Option<Map<Seq<char>, Seq<char>>> {
        if self@.dom().contains(name) {
            Some(self@[name])
        } else {
            None
        }
    }

    /// Every section holds finitely many names.
    pub proof fn lemma_section_finite(&self, name: Seq<char>)
        ensures
            self.section(name) is Some ==> self.section(name)->Some_0.dom().finite(),
    {
        if self@.dom().contains(name) {
            let keys = keys_of(self.sections@);
            lemma_last_exists(keys, name);
            self.sections@[last_of(keys, name)].1.lemma_finite();
        }
    }

    /// A configuration without sections.
    pub fn new() -> (config: Self)
        ensures
            config@ == Map::<Seq<char>, Map<Seq<char>, Seq<char>>>::empty(),
    {
        let config = BuckConfig { sections: Vec::new() };
        assert(config@ =~= Map::<Seq<char>, Map<Seq<char>, Seq<char>>>::empty());
        config
    }

    /// Adds a section at the end; it replaces what `name` stood for before.
    pub fn insert_section(&mut self, name: &str, section: ConfigSection)
        ensures
            final(self)@ == old(self)@.insert(name@, section@),
    {
        let ghost keys = keys_of(self.sections@);
        let ghost contents = self.contents();
        let ghost held = section@;
        self.sections.push((name.to_owned(), section));
        proof {
            lemma_assoc_push(keys, contents, name@, held);
            assert(keys_of(self.sections@) =~= keys.push(name@));
            assert(self.contents() =~= contents.push(held));
        }
    }

    /// The section named `name`, if the configuration has it.
    pub fn get_section(&self, name: &str) -> (found: Option<&ConfigSection>)
        ensures
            match found {
                Some(s) => self.section(name@) == Some(s@),
                None => self.section(name@) is None,
            },
    {
        match find_last(&self.sections, name) {
            Some(j) => {
                proof {
                    lemma_last_is(keys_of(self.sections@), name@, j as int);
                }
                Some(&self.sections[j].1)
            },
            None => None,
        }
    }
}

} // verus!
