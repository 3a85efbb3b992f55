//! Association tables from variable slots and registers to checked types.

use crate::text::str_eq;
use crate::types::{Ty, TyModel, copy_u32_tys, u32_tys_view};
use vstd::prelude::*;

verus! {

/// A table from 32-bit identities (variable slots, registers) to types.
#[derive(Debug, PartialEq, Eq)]
pub struct TyTable {
    pub entries: Vec<(u32, Ty)>,
}

impl View for TyTable {
    type V = Seq<(u32, TyModel)>;

    open spec fn view(&self) -> Seq<(u32, TyModel)> {
        u32_tys_view(self.entries)
    }
}

/// The position of the entry that holds for `key`: the last one with it.
pub open spec fn table_position(table: Seq<(u32, TyModel)>, key: u32) -> Option<int>
    decreases table.len(),
{
    if table.len() == 0 {
        None
    } else if table.last().0 == key {
        Some(table.len() - 1)
    } else {
        table_position(table.drop_last(), key)
    }
}

/// The type recorded for `key`.
pub open spec fn table_get(table: Seq<(u32, TyModel)>, key: u32) -> Option<TyModel> {
    match table_position(table, key) {
        Some(i) => Some(table[i].1),
        None => None,
    }
}

/// The table after recording `ty` for `key`: in place of the entry that held,
/// or behind the others.
pub open spec fn table_set(table: Seq<(u32, TyModel)>, key: u32, ty: TyModel) -> Seq<(u32, TyModel)> {
    match table_position(table, key) {
        Some(i) => table.update(i, (key, ty)),
        None => table.push((key, ty)),
    }
}

/// `table_position` names the last entry with the key, and is absent only where
/// no entry has it.
pub proof fn lemma_table_position(table: Seq<(u32, TyModel)>, key: u32)
    ensures
        match table_position(table, key) {
            Some(i) => 0 <= i < table.len() && table[i].0 == key && forall|j: int|
                i < j < table.len() ==> (#[trigger] table[j]).0 != key,
            None => forall|j: int| 0 <= j < table.len() ==> (#[trigger] table[j]).0 != key,
        },
    decreases table.len(),
{
    if table.len() > 0 && table.last().0 != key {
        lemma_table_position(table.drop_last(), key);
        let shorter = table.drop_last();
        assert forall|j: int| 0 <= j < table.len() - 1 implies #[trigger] table[j] == shorter[j] by {}
    }
}

/// The only position with these properties is `table_position`.
pub proof fn lemma_table_position_unique(table: Seq<(u32, TyModel)>, key: u32, i: int)
    requires
        0 <= i < table.len(),
        table[i].0 == key,
        forall|j: int| i < j < table.len() ==> (#[trigger] table[j]).0 != key,
    ensures
        table_position(table, key) == Some(i),
{
    lemma_table_position(table, key);
}

/// Reading after writing: the written key reads back the written type, and every
/// other key reads as before.
pub proof fn law_table_read_after_write(table: Seq<(u32, TyModel)>, key: u32, ty: TyModel, other: u32)
    ensures
        table_get(table_set(table, key, ty), other) == if other == key {
            Some(ty)
        } else {
            table_get(table, other)
        },
{
    lemma_table_position(table, key);
    lemma_table_position(table, other);
    let after = table_set(table, key, ty);
    lemma_table_position(after, other);
    if other == key {
        match table_position(table, key) {
            Some(i) => {
                lemma_table_position_unique(after, key, i);
            },
            None => {
                lemma_table_position_unique(after, key, after.len() - 1);
            },
        }
    } else {
        match table_position(table, other) {
            Some(i) => {
                assert(after[i] == table[i]);
                lemma_table_position_unique(after, other, i);
            },
            None => {
                assert forall|j: int| 0 <= j < after.len() implies (#[trigger] after[j]).0 != other by {
                    if j < table.len() {
                        assert(table[j].0 != other);
                    }
                }
            },
        }
    }
}

impl TyTable {
    /// An empty table.
    pub fn new() -> (r: TyTable)
        ensures
            r@ == Seq::<(u32, TyModel)>::empty(),
    {
        let r: TyTable = TyTable { entries: Vec::new() };
        assert(r@ =~= Seq::<(u32, TyModel)>::empty());
        r
    }

    /// A copy of the table.
    pub fn copy(&self) -> (r: TyTable)
        ensures
            r@ == self@,
    {
        TyTable { entries: copy_u32_tys(&self.entries) }
    }

    fn position(&self, key: u32) -> (r: Option<usize>)
        ensures
            match r {
                Some(i) => table_position(self@, key) == Some(i as int) && i < self.entries@.len(),
                None => table_position(self@, key) is None,
            },
    {
        let mut n: usize = self.entries.len();
        while n > 0
            invariant
                n <= self.entries@.len(),
                forall|j: int| n <= j < self.entries@.len() ==> (#[trigger] self@[j]).0 != key,
            decreases n,
        {
            if self.entries[n - 1].0 == key {
                proof {
                    assert(self@[n - 1].0 == key);
                    lemma_table_position_unique(self@, key, n - 1);
                }
                return Some(n - 1);
            }
            assert(self@[n - 1].0 != key);
            n = n - 1;
        }
        proof {
            lemma_table_position(self@, key);
        }
        None
    }

    /// The type recorded for `key`.
    pub fn get(&self, key: u32) -> (r: Option<&Ty>)
        ensures
            match r {
                Some(ty) => table_get(self@, key) == Some(ty@),
                None => table_get(self@, key) is None,
            },
    {
        match self.position(key) {
            Some(i) => {
                assert(self@[i as int].1 == self.entries@[i as int].1@);
                Some(&self.entries[i].1)
            },
            None => None,
        }
    }

    /// Whether `key` has a type.
    pub fn contains_key(&self, key: u32) -> (r: bool)
        ensures
            r == (table_get(self@, key) is Some),
    {
        self.position(key).is_some()
    }

    /// Records `ty` for `key`.
    pub fn insert(&mut self, key: u32, ty: Ty)
        ensures
            final(self)@ == table_set(old(self)@, key, ty@),
    {
        match self.position(key) {
            Some(i) => {
                self.entries.set(i, (key, ty));
            },
            None => {
                self.entries.push((key, ty));
            },
        }
        assert(self@ =~= table_set(old(self)@, key, ty@));
    }
}

impl Clone for TyTable {
    fn clone(&self) -> (r: TyTable)
        ensures
            r@ == self@,
    {
        self.copy()
    }
}

/// A table from names to values.
#[derive(Debug, PartialEq, Eq)]
pub struct NameMap<V> {
    pub entries: Vec<(String, V)>,
}

/// The map an association list spells: the last entry of a name holds.
pub open spec fn entry_map<V>(entries: Seq<(String, V)>) -> Map<Seq<char>, V>
    decreases entries.len(),
{
    if entries.len() == 0 {
        Map::empty()
    } else {
        entry_map(entries.drop_last()).insert(entries.last().0@, entries.last().1)
    }
}

proof fn lemma_entry_map_last<V>(entries: Seq<(String, V)>, i: int)
    requires
        0 <= i < entries.len(),
        forall|j: int| i < j < entries.len() ==> (#[trigger] entries[j]).0@ != entries[i].0@,
    ensures
        entry_map(entries).dom().contains(entries[i].0@),
        entry_map(entries)[entries[i].0@] == entries[i].1,
    decreases entries.len(),
{
    if i < entries.len() - 1 {
        let shorter = entries.drop_last();
        assert(entries[entries.len() - 1].0@ != entries[i].0@);
        assert forall|j: int| i < j < shorter.len() implies (#[trigger] shorter[j]).0@ != shorter[i].0@ by {
            assert(shorter[j] == entries[j]);
        }
        lemma_entry_map_last(shorter, i);
    }
}

proof fn lemma_entry_map_absent<V>(entries: Seq<(String, V)>, name: Seq<char>)
    requires
        forall|j: int| 0 <= j < entries.len() ==> (#[trigger] entries[j]).0@ != name,
    ensures
        !entry_map(entries).dom().contains(name),
    decreases entries.len(),
{
    if entries.len() > 0 {
        assert(entries[entries.len() - 1].0@ != name);
        assert forall|j: int| 0 <= j < entries.drop_last().len() implies (#[trigger] entries.drop_last()[j]).0@
            != name by {
            assert(entries.drop_last()[j] == entries[j]);
        }
        lemma_entry_map_absent(entries.drop_last(), name);
    }
}

proof fn lemma_entry_map_update<V>(entries: Seq<(String, V)>, i: int, entry: (String, V))
    requires
        0 <= i < entries.len(),
        entries[i].0@ == entry.0@,
        forall|j: int| i < j < entries.len() ==> (#[trigger] entries[j]).0@ != entry.0@,
    ensures
        entry_map(entries.update(i, entry)) == entry_map(entries).insert(entry.0@, entry.1),
    decreases entries.len(),
{
    let after = entries.update(i, entry);
    if i == entries.len() - 1 {
        assert(after.drop_last() =~= entries.drop_last());
        assert(entry_map(after) =~= entry_map(entries).insert(entry.0@, entry.1));
    } else {
        let shorter = entries.drop_last();
        assert(after.drop_last() =~= shorter.update(i, entry));
        assert(entries[entries.len() - 1].0@ != entry.0@);
        assert forall|j: int| i < j < shorter.len() implies (#[trigger] shorter[j]).0@ != entry.0@ by {
            assert(shorter[j] == entries[j]);
        }
        lemma_entry_map_update(shorter, i, entry);
        assert(entry_map(after) =~= entry_map(entries).insert(entry.0@, entry.1));
    }
}

impl<V> View for NameMap<V> {
    type V = Map<Seq<char>, V>;

    open spec fn view(&self) -> Map<Seq<char>, V> {
        entry_map(self.entries@)
    }
}

impl<V> NameMap<V> {
    /// An empty table.
    pub fn new() -> (r: NameMap<V>)
        ensures
            r@ == Map::<Seq<char>, V>::empty(),
            r.entries@.len() == 0,
    {
        NameMap { entries: Vec::new() }
    }

    fn position(&self, name: &str) -> (r: Option<usize>)
        ensures
            match r {
                Some(i) => i < self.entries@.len() && self.entries@[i as int].0@ == name@ && forall|j: int|
                    i < j < self.entries@.len() ==> (#[trigger] self.entries@[j]).0@ != name@,
                None => forall|j: int|
                    0 <= j < self.entries@.len() ==> (#[trigger] self.entries@[j]).0@ != name@,
            },
    {
        let mut n: usize = self.entries.len();
        while n > 0
            invariant
                n <= self.entries@.len(),
                forall|j: int| n <= j < self.entries@.len() ==> (#[trigger] self.entries@[j]).0@ != name@,
            decreases n,
        {
            if str_eq(&self.entries[n - 1].0, name) {
                return Some(n - 1);
            }
            n = n - 1;
        }
        None
    }

    /// The value recorded for `name`.
    pub fn get(&self, name: &str) -> (r: Option<&V>)
        ensures
            match r {
                Some(v) => self@.dom().contains(name@) && self@[name@] == *v,
                None => !self@.dom().contains(name@),
            },
    {
        match self.position(name) {
            Some(i) => {
                proof {
                    lemma_entry_map_last(self.entries@, i as int);
                }
                Some(&self.entries[i].1)
            },
            None => {
                proof {
                    lemma_entry_map_absent(self.entries@, name@);
                }
                None
            },
        }
    }

    /// Whether `name` has a value.
    pub fn contains_key(&self, name: &str) -> (r: bool)
        ensures
            r == self@.dom().contains(name@),
    {
        self.get(name).is_some()
    }

    /// Records `value` for `name`.
    pub fn insert(&mut self, name: String, value: V)
        ensures
            final(self)@ == old(self)@.insert(name@, value),
            final(self).entries@.len() == old(self).entries@.len() + if old(self)@.dom().contains(name@) { 0nat } else { 1nat },
    {
        match self.position(&name) {
            Some(i) => {
                proof {
                    lemma_entry_map_last(self.entries@, i as int);
                    lemma_entry_map_update(self.entries@, i as int, (name, value));
                }
                self.entries.set(i, (name, value));
            },
            None => {
                proof {
                    lemma_entry_map_absent(self.entries@, name@);
                    assert(self.entries@.push((name, value)).drop_last() =~= self.entries@);
                }
                self.entries.push((name, value));
            },
        }
    }
}

/// A table from 32-bit identities to values.
#[derive(Debug, PartialEq, Eq)]
pub struct IdMap<V> {
    pub entries: Vec<(u32, V)>,
}

/// The map an association list spells: the last entry of an identity holds.
pub open spec fn id_map<V>(entries: Seq<(u32, V)>) -> Map<u32, V>
    decreases entries.len(),
{
    if entries.len() == 0 {
        Map::empty()
    } else {
        id_map(entries.drop_last()).insert(entries.last().0, entries.last().1)
    }
}

proof fn lemma_id_map_suffix<V>(entries: Seq<(u32, V)>, key: u32, n: int)
    requires
        0 <= n <= entries.len(),
        forall|j: int| n <= j < entries.len() ==> (#[trigger] entries[j]).0 != key,
    ensures
        id_map(entries).dom().contains(key) == id_map(entries.take(n)).dom().contains(key),
        id_map(entries)[key] == id_map(entries.take(n))[key],
    decreases entries.len(),
{
    if n == entries.len() {
        assert(entries.take(n) =~= entries);
    } else {
        let shorter = entries.drop_last();
        assert(entries[entries.len() - 1].0 != key);
        assert forall|j: int| n <= j < shorter.len() implies (#[trigger] shorter[j]).0 != key by {
            assert(shorter[j] == entries[j]);
        }
        lemma_id_map_suffix(shorter, key, n);
        assert(shorter.take(n) =~= entries.take(n));
    }
}

proof fn lemma_id_map_update<V>(entries: Seq<(u32, V)>, i: int, entry: (u32, V))
    requires
        0 <= i < entries.len(),
        entries[i].0 == entry.0,
        forall|j: int| i < j < entries.len() ==> (#[trigger] entries[j]).0 != entry.0,
    ensures
        id_map(entries.update(i, entry)) == id_map(entries).insert(entry.0, entry.1),
    decreases entries.len(),
{
    let after = entries.update(i, entry);
    if i == entries.len() - 1 {
        assert(after.drop_last() =~= entries.drop_last());
        assert(id_map(after) =~= id_map(entries).insert(entry.0, entry.1));
    } else {
        let shorter = entries.drop_last();
        assert(after.drop_last() =~= shorter.update(i, entry));
        assert(entries[entries.len() - 1].0 != entry.0);
        assert forall|j: int| i < j < shorter.len() implies (#[trigger] shorter[j]).0 != entry.0 by {
            assert(shorter[j] == entries[j]);
        }
        lemma_id_map_update(shorter, i, entry);
        assert(id_map(after) =~= id_map(entries).insert(entry.0, entry.1));
    }
}

impl<V> View for IdMap<V> {
    type V = Map<u32, V>;

    open spec fn view(&self) -> Map<u32, V> {
        id_map(self.entries@)
    }
}

impl<V> IdMap<V> {
    /// An empty table.
    pub fn new() -> (r: IdMap<V>)
        ensures
            r@ == Map::<u32, V>::empty(),
    {
        IdMap { entries: Vec::new() }
    }

    fn position(&self, key: u32) -> (r: Option<usize>)
        ensures
            match r {
                Some(i) => i < self.entries@.len() && self.entries@[i as int].0 == key && forall|j: int|
                    i < j < self.entries@.len() ==> (#[trigger] self.entries@[j]).0 != key,
                None => forall|j: int| 0 <= j < self.entries@.len() ==> (#[trigger] self.entries@[j]).0 != key,
            },
    {
        let mut n: usize = self.entries.len();
        while n > 0
            invariant
                n <= self.entries@.len(),
                forall|j: int| n <= j < self.entries@.len() ==> (#[trigger] self.entries@[j]).0 != key,
            decreases n,
        {
            if self.entries[n - 1].0 == key {
                return Some(n - 1);
            }
            n = n - 1;
        }
        None
    }

    /// The value recorded for `key`.
    pub fn get(&self, key: u32) -> (r: Option<&V>)
        ensures
            match r {
                Some(v) => self@.dom().contains(key) && self@[key] == *v,
                None => !self@.dom().contains(key),
            },
    {
        match self.position(key) {
            Some(i) => {
                proof {
                    lemma_id_map_suffix(self.entries@, key, i + 1);
                    assert(self.entries@.take(i + 1).last() == self.entries@[i as int]);
                }
                Some(&self.entries[i].1)
            },
            None => {
                proof {
                    lemma_id_map_suffix(self.entries@, key, 0);
                }
                None
            },
        }
    }

    /// Records `value` for `key`.
    pub fn insert(&mut self, key: u32, value: V)
        ensures
            final(self)@ == old(self)@.insert(key, value),
    {
        match self.position(key) {
            Some(i) => {
                proof {
                    lemma_id_map_update(self.entries@, i as int, (key, value));
                }
                self.entries.set(i, (key, value));
            },
            None => {
                proof {
                    assert(self.entries@.push((key, value)).drop_last() =~= self.entries@);
                }
                self.entries.push((key, value));
            },
        }
    }
}

} // verus!
