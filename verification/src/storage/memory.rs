//! A store kept in memory, in concurrent hash maps.

use crate::error::BaseError;
use crate::storage::{
    erased, kv_items, lemma_listed_reverse, listed, lookup, stored, table_of, with_table, Kvpair, Storage, StorageIter, Tables,
};
use crate::value::{Value, ValueView};
use dashmap::DashMap;
use vstd::prelude::*;

verus! {

// `DashMap` changes through `&self`; the wrappers below that change a map
// take it by `&mut`, so that each change is one that the contracts can see.
#[verifier::external_type_specification]
#[verifier::external_body]
#[verifier::reject_recursive_types(K)]
#[verifier::reject_recursive_types(V)]
#[verifier::reject_recursive_types(S)]
pub struct ExDashMap<K, V, S>(DashMap<K, V, S>);

/// The entries of one table: each key's text and what the value stored
/// there holds.
pub uninterp spec fn entries(t: DashMap<String, Value>) -> Map<Seq<char>, ValueView>;

/// The tables of a store: each table's name and the entries of that table.
pub uninterp spec fn tables(m: DashMap<String, DashMap<String, Value>>) -> Tables;

/// `DashMap::new` for a table: the new map holds no entry.
#[verifier::external_body]
fn new_table() -> (t: DashMap<String, Value>)
    ensures
        entries(t).is_empty(),
{
    DashMap::new()
}

/// `DashMap::new` for the map of tables: the new map holds no table.
#[verifier::external_body]
fn new_tables() -> (m: DashMap<String, DashMap<String, Value>>)
    ensures
        tables(m).is_empty(),
{
    DashMap::new()
}

/// `DashMap::contains_key` on the map of tables: whether a table of that name
/// is held.
#[verifier::external_body]
fn has_table(m: &DashMap<String, DashMap<String, Value>>, name: &str) -> (r: bool)
    ensures
        r == tables(*m).contains_key(name@),
{
    m.contains_key(name)
}

/// `DashMap::insert` on the map of tables: afterwards `name` maps to the
/// entries of `t`, and every other table is as before.
#[verifier::external_body]
fn put_table(m: &mut DashMap<String, DashMap<String, Value>>, name: String, t: DashMap<String, Value>)
    ensures
        tables(*final(m)) == tables(*old(m)).insert(name@, entries(t)),
{
    m.insert(name, t);
}

/// `DashMap::remove` on the map of tables: hands out the table of that name,
/// if there is one, and holds it no longer.
#[verifier::external_body]
fn take_table(m: &mut DashMap<String, DashMap<String, Value>>, name: &str) -> (r: Option<
    DashMap<String, Value>,
>)
    ensures
        match r {
            Some(t) => tables(*old(m)).contains_key(name@) && entries(t) == tables(
                *old(m),
            )[name@] && tables(*final(m)) == tables(*old(m)).remove(name@),
            None => !tables(*old(m)).contains_key(name@) && tables(*final(m)) == tables(*old(m)),
        },
{
    m.remove(name).map(|(_, t)| t)
}

/// `DashMap::get` on a table, with the found value cloned out of its guard.
#[verifier::external_body]
fn get_entry(t: &DashMap<String, Value>, key: &str) -> (r: Option<Value>)
    ensures
        r is Some == entries(*t).contains_key(key@),
        r matches Some(v) ==> v@ == entries(*t)[key@],
{
    t.get(key).map(|e| e.value().clone())
}

/// `DashMap::insert` on a table: afterwards `key` maps to `value`, and every
/// other key is as before.
#[verifier::external_body]
fn put_entry(t: &mut DashMap<String, Value>, key: String, value: Value)
    ensures
        entries(*final(t)) == entries(*old(t)).insert(key@, value@),
{
    t.insert(key, value);
}

/// `DashMap::remove` on a table: afterwards `key` maps to nothing, and every
/// other key is as before.
#[verifier::external_body]
fn remove_entry(t: &mut DashMap<String, Value>, key: &str)
    ensures
        entries(*final(t)) == entries(*old(t)).remove(key@),
{
    t.remove(key);
}

/// `DashMap::iter` on a table, each entry cloned out of its guard: every
/// entry once, in the map's own order, which is left open.
#[verifier::external_body]
fn entry_items(t: &DashMap<String, Value>) -> (r: Vec<(String, Value)>)
    ensures
        listed(r@, entries(*t)),
{
    t.iter().map(|e| (e.key().clone(), e.value().clone())).collect()
}

/// `DashMap::clone` on the map of tables: a new map with a clone of each
/// table, so the same names and entries.
#[verifier::external_body]
fn clone_tables(m: &DashMap<String, DashMap<String, Value>>) -> (r: DashMap<
    String,
    DashMap<String, Value>,
>)
    ensures
        tables(r) == tables(*m),
{
    m.clone()
}

/// A store of named tables kept in memory.
#[derive(Debug)]
pub struct MemTable {
    tables: DashMap<String, DashMap<String, Value>>,
}

impl View for MemTable {
    type V = Tables;

    closed spec fn view(&self) -> Tables {
        tables(self.tables)
    }
}

impl MemTable {
    /// An empty store.
    pub fn new() -> (s: Self)
        ensures
            s@ == Map::<Seq<char>, Map<Seq<char>, ValueView>>::empty(),
    {
        let m = new_tables();
        assert(tables(m) =~= Map::empty());
        MemTable { tables: m }
    }

    /// Whether a table named `name` exists.
    pub fn contains_table(&self, name: &str) -> (r: bool)
        ensures
            r == self@.contains_key(name@),
    {
        has_table(&self.tables, name)
    }

    /// Makes sure that a table named `name` exists, empty where it was missing.
    pub fn get_or_create_table(&mut self, name: &str)
        ensures
            final(self)@ == with_table(old(self)@, name@),
    {
        if !has_table(&self.tables, name) {
            let t = new_table();
            assert(entries(t) =~= Map::empty());
            put_table(&mut self.tables, name.to_owned(), t);
        }
    }

    /// The entries of `table` as they are now, which is created where missing.
    fn snapshot(&mut self, table: &str) -> (items: Vec<(String, Value)>)
        ensures
            final(self)@ == with_table(old(self)@, table@),
            listed(items@, table_of(old(self)@, table@)),
    {
        self.get_or_create_table(table);
        let t = self.take(table);
        let items = entry_items(&t);
        put_table(&mut self.tables, table.to_owned(), t);
        proof {
            assert(self@ =~= with_table(old(self)@, table@));
        }
        items
    }

    /// Takes the table `name` out of the store; it must exist.
    fn take(&mut self, name: &str) -> (t: DashMap<String, Value>)
        requires
            old(self)@.contains_key(name@),
        ensures
            entries(t) == old(self)@[name@],
            final(self)@ == old(self)@.remove(name@),
    {
        match take_table(&mut self.tables, name) {
            Some(t) => t,
            None => {
                proof {
                    assert(false);
                }
                new_table()
            },
        }
    }
}

impl Clone for MemTable {
    /// A store of its own with the same tables and entries.
    fn clone(&self) -> (s: Self)
        ensures
            s@ == self@,
    {
        MemTable { tables: clone_tables(&self.tables) }
    }
}

impl Default for MemTable {
    fn default() -> (s: Self)
        ensures
            s@ == Map::<Seq<char>, Map<Seq<char>, ValueView>>::empty(),
    {
        MemTable::new()
    }
}

impl Storage for MemTable {
    type Error = BaseError;

    /// Reads `key` in `table`, the empty value where either is missing; a
    /// missing table is created, empty.
    fn get(&mut self, table: &str, key: &str) -> (r: Result<Value, BaseError>)
        ensures
            final(self)@ == with_table(old(self)@, table@),
            r matches Ok(v) && v@ == lookup(old(self)@, table@, key@),
    {
        self.get_or_create_table(table);
        let t = self.take(table);
        let found = get_entry(&t, key);
        put_table(&mut self.tables, table.to_owned(), t);
        proof {
            assert(self@ =~= with_table(old(self)@, table@));
        }
        match found {
            Some(v) => Ok(v),
            None => Ok(Value::default()),
        }
    }

    /// Stores `value` under `key` in `table`, which is created where missing.
    fn set(&mut self, table: &str, key: &str, value: Value) -> (r: Result<(), BaseError>)
        ensures
            final(self)@ == stored(old(self)@, table@, key@, value@),
            r is Ok,
    {
        self.get_or_create_table(table);
        let mut t = self.take(table);
        put_entry(&mut t, key.to_owned(), value);
        put_table(&mut self.tables, table.to_owned(), t);
        proof {
            assert(self@ =~= stored(old(self)@, table@, key@, value@));
        }
        Ok(())
    }

    /// Deletes `key` from `table`, which is created where missing; deleting
    /// what is not there is no error.
    fn del(&mut self, table: &str, key: &str) -> (r: Result<(), BaseError>)
        ensures
            final(self)@ == erased(old(self)@, table@, key@),
            r is Ok,
    {
        self.get_or_create_table(table);
        let mut t = self.take(table);
        remove_entry(&mut t, key);
        put_table(&mut self.tables, table.to_owned(), t);
        proof {
            assert(self@ =~= erased(old(self)@, table@, key@));
        }
        Ok(())
    }

    /// Every pair of `table`, once each, in no fixed order; a missing table is
    /// created, empty.
    fn get_all(&mut self, table: &str) -> (r: Result<Vec<Kvpair>, BaseError>)
        ensures
            final(self)@ == with_table(old(self)@, table@),
            r matches Ok(pairs) && listed(kv_items(pairs@), table_of(old(self)@, table@)),
    {
        let mut items = self.snapshot(table);
        let ghost all = items@;
        let mut pairs: Vec<Kvpair> = Vec::new();
        while items.len() > 0
            invariant
                items@.len() + pairs@.len() == all.len(),
                items@ == all.take(items@.len() as int),
                forall|j: int|
                    0 <= j < pairs@.len() ==> (#[trigger] kv_items(pairs@)[j]) == all[all.len() - 1
                        - j],
            decreases items.len(),
        {
            let ghost before = pairs@;
            match items.pop() {
                Some(item) => {
                    pairs.push(Kvpair { key: item.0, val: item.1 });
                    proof {
                        assert forall|j: int| 0 <= j < pairs@.len() implies (#[trigger] kv_items(
                            pairs@,
                        )[j]) == all[all.len() - 1 - j] by {
                            if j < before.len() {
                                assert(pairs@[j] == before[j]);
                                assert(kv_items(before)[j] == all[all.len() - 1 - j]);
                            }
                        }
                    }
                },
                None => {},
            }
        }
        proof {
            assert(kv_items(pairs@) =~= all.reverse());
            lemma_listed_reverse(all, table_of(old(self)@, table@));
        }
        Ok(pairs)
    }

    /// A walk over the pairs that `table` holds now; a missing table is
    /// created, empty.
    fn get_iter(&mut self, table: &str) -> (r: Result<StorageIter<Vec<(String, Value)>>, BaseError>)
        ensures
            final(self)@ == with_table(old(self)@, table@),
            r matches Ok(it) && listed(it@, table_of(old(self)@, table@)),
    {
        let items = self.snapshot(table);
        Ok(StorageIter::new(items))
    }
}

} // verus!
