//! The variables of one interpreter run: each name holds the text that was
//! last stored under it.

use crate::text::same_text;
use vstd::prelude::*;

verus! {

/// A mapping from variable names to text. Storing under a name that is there
/// replaces its text.
pub struct VariableStore {
    entries: Vec<(String, String)>,
}

/// The mapping that a list of entries stands for: each name with the text of
/// its last entry.
pub open spec fn entries_map(entries: Seq<(String, String)>) -> Map<Seq<char>, Seq<char>>
    decreases entries.len(),
{
    if entries.len() == 0 {
        Map::empty()
    } else {
        entries_map(entries.drop_last()).insert(entries.last().0@, entries.last().1@)
    }
}

/// The index of the last entry of `name`, or -1 where it has none.
pub open spec fn last_entry_of(entries: Seq<(String, String)>, name: Seq<char>) -> int
    decreases entries.len(),
{
    if entries.len() == 0 {
        -1
    } else if entries.last().0@ == name {
        entries.len() - 1
    } else {
        last_entry_of(entries.drop_last(), name)
    }
}

/// The mapping of a list holds a name exactly when the list has an entry of
/// it, and then with the text of the last such entry.
pub proof fn lemma_last_entry(entries: Seq<(String, String)>, name: Seq<char>)
    ensures
        -1 <= last_entry_of(entries, name) < entries.len(),
        entries_map(entries).contains_key(name) <==> last_entry_of(entries, name) >= 0,
        last_entry_of(entries, name) >= 0 ==> entries[last_entry_of(entries, name)].0@ == name
            && entries_map(entries)[name] == entries[last_entry_of(entries, name)].1@,
    decreases entries.len(),
{
    if entries.len() > 0 {
        lemma_last_entry(entries.drop_last(), name);
    }
}

/// Replacing the last entry of a name stores the new text under that name
/// and changes nothing else.
pub proof fn lemma_replace_last_entry(
    entries: Seq<(String, String)>,
    at: int,
    entry: (String, String),
)
    requires
        0 <= at < entries.len(),
        at == last_entry_of(entries, entry.0@),
    ensures
        entries_map(entries.update(at, entry)) == entries_map(entries).insert(entry.0@, entry.1@),
    decreases entries.len(),
{
    let after = entries.update(at, entry);
    let front = entries.drop_last();
    if at == entries.len() - 1 {
        assert(after.drop_last() == front);
        lemma_last_entry(entries, entry.0@);
        assert(entries_map(after) =~= entries_map(entries).insert(entry.0@, entry.1@));
    } else {
        assert(after.drop_last() == front.update(at, entry));
        assert(after.last() == entries.last());
        lemma_replace_last_entry(front, at, entry);
        assert(entries_map(after) =~= entries_map(entries).insert(entry.0@, entry.1@));
    }
}

impl View for VariableStore {
    type V = Map<Seq<char>, Seq<char>>;

    closed spec fn view(&self) -> Map<Seq<char>, Seq<char>> {
        entries_map(self.entries@)
    }
}

impl VariableStore {
    /// A store without variables.
    pub fn new() -> (store: VariableStore)
        ensures
            store@ == Map::<Seq<char>, Seq<char>>::empty(),
    {
        VariableStore { entries: Vec::new() }
    }

    /// The place of the last entry of `name`, if it has one.
    fn position(&self, name: &str) -> (at: Option<usize>)
        ensures
            match at {
                Some(i) => i == last_entry_of(self.entries@, name@),
                None => last_entry_of(self.entries@, name@) == -1,
            },
    {
        let mut i: usize = self.entries.len();
        assert(self.entries@.take(i as int) == self.entries@);
        while i > 0
            invariant
                i <= self.entries.len(),
                last_entry_of(self.entries@, name@) == last_entry_of(
                    self.entries@.take(i as int),
                    name@,
                ),
            decreases i,
        {
            assert(self.entries@.take(i as int).drop_last() == self.entries@.take(i - 1));
            assert(self.entries@.take(i as int).last() == self.entries@[i - 1]);
            if same_text(self.entries[i - 1].0.as_str(), name) {
                return Some(i - 1);
            }
            i -= 1;
        }
        None
    }

    /// The text stored under `name`, if there is any.
    pub fn get(&self, name: &str) -> (value: Option<&String>)
        ensures
            match value {
                Some(text) => self@.contains_key(name@) && text@ == self@[name@],
                None => !self@.contains_key(name@),
            },
    {
        proof {
            lemma_last_entry(self.entries@, name@);
        }
        match self.position(name) {
            Some(i) => Some(&self.entries[i].1),
            None => None,
        }
    }

    /// Whether anything is stored under `name`.
    pub fn contains(&self, name: &str) -> (yes: bool)
        ensures
            yes == self@.contains_key(name@),
    {
        self.get(name).is_some()
    }

    /// Stores `value` under `name`, in place of what was stored there.
    pub fn insert(&mut self, name: String, value: String)
        ensures
            final(self)@ == old(self)@.insert(name@, value@),
    {
        let ghost before = self.entries@;
        match self.position(name.as_str()) {
            Some(i) => {
                proof {
                    lemma_last_entry(before, name@);
                    lemma_replace_last_entry(before, i as int, (name, value));
                }
                self.entries.set(i, (name, value));
            },
            None => {
                self.entries.push((name, value));
                assert(self.entries@.drop_last() == before);
            },
        }
    }

    /// The store that holds `pairs`; where a name occurs more than once, its
    /// last text stays.
    pub fn from_pairs(pairs: Vec<(String, String)>) -> (store: VariableStore)
        ensures
            store@ == entries_map(pairs@),
    {
        let mut store = VariableStore::new();
        let mut i: usize = 0;
        while i < pairs.len()
            invariant
                i <= pairs.len(),
                store@ == entries_map(pairs@.take(i as int)),
            decreases pairs.len() - i,
        {
            let name = pairs[i].0.clone();
            let value = pairs[i].1.clone();
            proof {
                assert(pairs@.take(i + 1).drop_last() == pairs@.take(i as int));
                assert(pairs@.take(i + 1).last() == pairs@[i as int]);
            }
            store.insert(name, value);
            i += 1;
        }
        assert(pairs@.take(pairs.len() as int) == pairs@);
        store
    }
}

} // verus!
