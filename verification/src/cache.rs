//! A table from names to loaded values: the samples and the melodies that
//! scores refer to by name.

use vstd::prelude::*;
use crate::text::chars_of;

verus! {

/// Values by name. A name that is inserted again gets the new value, in the
/// place of the old one.
pub struct Cache<V> {
    entries: Vec<(Vec<char>, V)>,
}

/// The table that a list of insertions builds: a later entry replaces an
/// earlier one of the same name.
pub open spec fn table_of<V>(entries: Seq<(Vec<char>, V)>) -> Map<Seq<char>, V>
    decreases entries.len(),
{
    if entries.len() == 0 {
        Map::empty()
    } else {
        table_of(entries.drop_last()).insert(entries.last().0@, entries.last().1)
    }
}

impl<V> View for Cache<V> {
    type V = Map<Seq<char>, V>;

    closed spec fn view(&self) -> Map<Seq<char>, V> {
        table_of(self.entries@)
    }
}

/// A name stands in the table if and only if an entry has it.
proof fn lemma_names<V>(entries: Seq<(Vec<char>, V)>, name: Seq<char>)
    ensures
        table_of(entries).dom().contains(name) <==> exists|j: int|
            0 <= j < entries.len() && (#[trigger] entries[j]).0@ == name,
    decreases entries.len(),
{
    if entries.len() > 0 {
        let front = entries.drop_last();
        lemma_names(front, name);
        if table_of(entries).dom().contains(name) {
            if entries.last().0@ == name {
                assert(entries[entries.len() - 1].0@ == name);
            } else {
                let j = choose|j: int| 0 <= j < front.len() && (#[trigger] front[j]).0@ == name;
                assert(entries[j].0@ == name);
            }
        }
        if exists|j: int| 0 <= j < entries.len() && (#[trigger] entries[j]).0@ == name {
            let j = choose|j: int| 0 <= j < entries.len() && (#[trigger] entries[j]).0@ == name;
            if j < front.len() {
                assert(front[j].0@ == name);
            }
        }
    }
}

/// To put a new value in the place of the last entry of a name is to insert
/// the value under the name.
proof fn lemma_replaced<V>(entries: Seq<(Vec<char>, V)>, i: int, entry: (Vec<char>, V))
    requires
        0 <= i < entries.len(),
        entries[i].0@ == entry.0@,
        forall|j: int| i < j < entries.len() ==> (#[trigger] entries[j]).0@ != entry.0@,
    ensures
        table_of(entries.update(i, entry)) == table_of(entries).insert(entry.0@, entry.1),
    decreases entries.len(),
{
    let changed = entries.update(i, entry);
    let front = entries.drop_last();
    if i == entries.len() - 1 {
        assert(changed.drop_last() =~= front);
        assert(table_of(changed) =~= table_of(entries).insert(entry.0@, entry.1));
    } else {
        assert(changed.drop_last() =~= front.update(i, entry));
        assert(changed.last() == entries.last());
        assert(entries.last().0@ != entry.0@);
        assert forall|j: int| i < j < front.len() implies (#[trigger] front[j]).0@ != entry.0@ by {
            assert(front[j] == entries[j]);
        }
        lemma_replaced(front, i, entry);
        assert(table_of(changed) =~= table_of(entries).insert(entry.0@, entry.1));
    }
}

fn same_chars(a: &Vec<char>, b: &[char]) -> (r: bool)
    ensures
        r == (a@ == b@),
{
    let n: usize = a.len();
    if b.len() != n {
        return false;
    }
    let mut i: usize = 0;
    while i < n
        invariant
            i <= n,
            n == a@.len(),
            n == b@.len(),
            forall|j: int| 0 <= j < i ==> a@[j] == b@[j],
        decreases n - i,
    {
        if a[i] != b[i] {
            return false;
        }
        i += 1;
    }
    assert(a@ =~= b@);
    true
}

impl<V> Cache<V> {
    /// The empty table.
    pub fn new() -> (r: Self)
        ensures
            r@ == Map::<Seq<char>, V>::empty(),
    {
        Cache { entries: Vec::new() }
    }

    /// Puts `value` under `name`, in place of what was there.
    pub fn insert(&mut self, name: &str, value: V)
        ensures
            final(self)@ == old(self)@.insert(name@, value),
            final(self).stored() == old(self).stored() + (if old(self)@.dom().contains(name@) {
                0nat
            } else {
                1nat
            }),
    {
        let key: Vec<char> = chars_of(name);
        let ghost before = self.entries@;
        proof {
            lemma_names(before, name@);
        }
        let mut i: usize = self.entries.len();
        while i > 0
            invariant
                i <= self.entries@.len(),
                self.entries@ == before,
                before == old(self).entries@,
                key@ == name@,
                forall|j: int| i <= j < before.len() ==> (#[trigger] before[j]).0@ != key@,
                table_of(before).dom().contains(name@) <==> exists|j: int|
                    0 <= j < before.len() && (#[trigger] before[j]).0@ == name@,
            decreases i,
        {
            if same_chars(&self.entries[i - 1].0, key.as_slice()) {
                proof {
                    lemma_replaced(before, i - 1, (key, value));
                    assert(before[i - 1].0@ == name@);
                }
                self.entries.set(i - 1, (key, value));
                assert(self.entries@ == before.update(i - 1, (key, value)));
                return;
            }
            i -= 1;
        }
        self.entries.push((key, value));
        assert(self.entries@.drop_last() =~= before);
    }

    /// The number of entries that the table holds in memory.
    pub closed spec fn stored(&self) -> nat {
        self.entries@.len()
    }

    /// The number of entries that the table holds in memory.
    pub fn entry_count(&self) -> (r: usize)
        ensures
            r == self.stored(),
    {
        self.entries.len()
    }

    /// The value under `name`, if there is one.
    pub fn lookup(&self, name: &[char]) -> (r: Option<&V>)
        ensures
            match r {
                Some(v) => self@.dom().contains(name@) && *v == self@[name@],
                None => !self@.dom().contains(name@),
            },
    {
        let mut i: usize = self.entries.len();
        assert(self.entries@.take(i as int) =~= self.entries@);
        while i > 0
            invariant
                i <= self.entries@.len(),
                self@.dom().contains(name@) <==> table_of(self.entries@.take(i as int)).dom().contains(
                    name@,
                ),
                self@.dom().contains(name@) ==> self@[name@] == table_of(
                    self.entries@.take(i as int),
                )[name@],
            decreases i,
        {
            let ghost part = self.entries@.take(i as int);
            assert(part.drop_last() =~= self.entries@.take(i - 1));
            assert(part.last() == self.entries@[i - 1]);
            if same_chars(&self.entries[i - 1].0, name) {
                return Some(&self.entries[i - 1].1);
            }
            i -= 1;
        }
        None
    }

    /// The value under `name`, if there is one.
    pub fn get(&self, name: &str) -> (r: Option<&V>)
        ensures
            match r {
                Some(v) => self@.dom().contains(name@) && *v == self@[name@],
                None => !self@.dom().contains(name@),
            },
    {
        let key: Vec<char> = chars_of(name);
        self.lookup(key.as_slice())
    }

    /// Whether a value stands under `name`.
    pub fn contains(&self, name: &str) -> (r: bool)
        ensures
            r == self@.dom().contains(name@),
    {
        self.get(name).is_some()
    }
}

} // verus!
