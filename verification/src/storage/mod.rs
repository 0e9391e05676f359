//! Tables of key/value pairs.

pub mod memory;

use crate::value::{empty_value, Ev, Value, ValueView};
use vstd::prelude::*;
use vstd::std_specs::convert::FromSpecImpl;

verus! {

/// One key and the value stored under it.
#[derive(Debug, PartialEq, PartialOrd)]
pub struct Kvpair {
    pub key: String,
    pub val: Value,
}

impl Kvpair {
    /// A pair of `key` and `val`, each converted by its `Into`.
    pub fn new<K: Into<String>, V: Into<Value>>(key: K, val: V) -> (p: Self)
        ensures
            call_ensures(K::into, (key,), p.key),
            call_ensures(V::into, (val,), p.val),
    {
        Kvpair { key: key.into(), val: val.into() }
    }
}

impl From<(String, Value)> for Kvpair {
    fn from(data: (String, Value)) -> (p: Kvpair) {
        Kvpair { key: data.0, val: data.1 }
    }
}

impl FromSpecImpl<(String, Value)> for Kvpair {
    open spec fn obeys_from_spec() -> bool {
        true
    }

    open spec fn from_spec(data: (String, Value)) -> Kvpair {
        Kvpair { key: data.0, val: data.1 }
    }
}

impl From<(String, Vec<u8>)> for Kvpair {
    fn from(data: (String, Vec<u8>)) -> (p: Kvpair) {
        Kvpair { key: data.0, val: Value::from(data.1) }
    }
}

impl FromSpecImpl<(String, Vec<u8>)> for Kvpair {
    open spec fn obeys_from_spec() -> bool {
        true
    }

    open spec fn from_spec(data: (String, Vec<u8>)) -> Kvpair {
        Kvpair { key: data.0, val: Value { ev: Some(Ev::Binary(data.1)) } }
    }
}

/// The pair of `key` and what was decoded for it: a value that did not
/// decode reads as the empty value.
pub fn pair_or_empty<E>(key: String, decoded: Result<Value, E>) -> (p: Kvpair)
    ensures
        p.key == key,
        p.val == (match decoded {
            Ok(v) => v,
            Err(_) => empty_value(),
        }),
{
    let val = match decoded {
        Ok(v) => v,
        Err(_) => Value::default(),
    };
    Kvpair { key, val }
}

/// `String::from` on text: the string holds the same characters.
pub assume_specification<'a>[ <std::string::String as std::convert::From<&'a str>>::from ](
    s: &str,
) -> (r: std::string::String)
    ensures
        r@ == s@,
;

/// The contents of a store: each table's name and the map from each of its
/// keys to the value stored there.
pub type Tables = Map<Seq<char>, Map<Seq<char>, ValueView>>;

/// The table named `name`; a missing table reads as an empty one.
pub open spec fn table_of(m: Tables, name: Seq<char>) -> Map<Seq<char>, ValueView> {
    if m.contains_key(name) {
        m[name]
    } else {
        Map::empty()
    }
}

/// What a read of `key` in `table` gives: the stored value, or the empty
/// value (`None`) where the table or the key is missing.
pub open spec fn lookup(m: Tables, table: Seq<char>, key: Seq<char>) -> ValueView {
    if table_of(m, table).contains_key(key) {
        table_of(m, table)[key]
    } else {
        None
    }
}

/// `m` with a table named `name`, empty where it was missing.
pub open spec fn with_table(m: Tables, name: Seq<char>) -> Tables {
    if m.contains_key(name) {
        m
    } else {
        m.insert(name, Map::empty())
    }
}

/// `m` after `value` is stored under `key` in `table`.
pub open spec fn stored(m: Tables, table: Seq<char>, key: Seq<char>, value: ValueView) -> Tables {
    m.insert(table, table_of(m, table).insert(key, value))
}

/// `m` after `key` is deleted from `table` (which then exists).
pub open spec fn erased(m: Tables, table: Seq<char>, key: Seq<char>) -> Tables {
    m.insert(table, table_of(m, table).remove(key))
}

/// `items` are the entries of `t`, each once, in some order.
pub open spec fn listed(items: Seq<(String, Value)>, t: Map<Seq<char>, ValueView>) -> bool {
    &&& t.dom().finite()
    &&& items.len() == t.len()
    &&& forall|i: int|
        0 <= i < items.len() ==> t.contains_key(#[trigger] items[i].0@) && t[items[i].0@]
            == items[i].1@
    &&& forall|i: int, j: int|
        0 <= i < items.len() && 0 <= j < items.len() && i != j ==> #[trigger] items[i].0@
            != #[trigger] items[j].0@
    &&& forall|k: Seq<char>|
        t.contains_key(k) ==> exists|i: int| 0 <= i < items.len() && #[trigger] items[i].0@ == k
}

/// The key and value of each pair.
pub open spec fn kv_items(pairs: Seq<Kvpair>) -> Seq<(String, Value)> {
    pairs.map_values(|p: Kvpair| (p.key, p.val))
}

/// Listing the entries in the opposite order lists them all the same.
pub proof fn lemma_listed_reverse(items: Seq<(String, Value)>, t: Map<Seq<char>, ValueView>)
    requires
        listed(items, t),
    ensures
        listed(items.reverse(), t),
{
    let r = items.reverse();
    let n = items.len() as int;
    assert forall|i: int| 0 <= i < n implies #[trigger] r[i] == items[n - 1 - i] by {}
    assert forall|i: int, j: int| 0 <= i < n && 0 <= j < n && i != j implies #[trigger] r[i].0@
        != #[trigger] r[j].0@ by {
        assert(r[i] == items[n - 1 - i]);
        assert(r[j] == items[n - 1 - j]);
    }
    assert forall|k: Seq<char>| t.contains_key(k) implies exists|i: int|
        0 <= i < n && #[trigger] r[i].0@ == k by {
        let i = choose|i: int| 0 <= i < n && #[trigger] items[i].0@ == k;
        assert(r[n - 1 - i] == items[i]);
    }
}

/// A read gives back what the last write to the same key stored.
pub proof fn lemma_read_after_write(m: Tables, table: Seq<char>, key: Seq<char>, value: ValueView)
    ensures
        lookup(stored(m, table, key, value), table, key) == value,
{
}

/// A write changes what a read of any other key or table gives in no way.
pub proof fn lemma_write_keeps_others(
    m: Tables,
    table: Seq<char>,
    key: Seq<char>,
    value: ValueView,
    table2: Seq<char>,
    key2: Seq<char>,
)
    requires
        table2 != table || key2 != key,
    ensures
        lookup(stored(m, table, key, value), table2, key2) == lookup(m, table2, key2),
{
}

/// After a delete, a read of the key gives the empty value.
pub proof fn lemma_read_after_delete(m: Tables, table: Seq<char>, key: Seq<char>)
    ensures
        lookup(erased(m, table, key), table, key) is None,
{
}

/// A delete changes what a read of any other key or table gives in no way.
pub proof fn lemma_delete_keeps_others(
    m: Tables,
    table: Seq<char>,
    key: Seq<char>,
    table2: Seq<char>,
    key2: Seq<char>,
)
    requires
        table2 != table || key2 != key,
    ensures
        lookup(erased(m, table, key), table2, key2) == lookup(m, table2, key2),
{
}

/// Creating a missing table changes what any read gives in no way.
pub proof fn lemma_create_table_keeps_reads(m: Tables, table: Seq<char>, table2: Seq<char>, key2: Seq<char>)
    ensures
        lookup(with_table(m, table), table2, key2) == lookup(m, table2, key2),
{
}

/// The interface of a store of named tables.
pub trait Storage: Send + Sync + 'static {
    type Error: std::fmt::Debug;

    /// Gets the `Value` of `key` in `table`.
    fn get(&mut self, table: &str, key: &str) -> Result<Value, Self::Error>;

    /// Sets the `Value` of `key` in `table`.
    fn set(&mut self, table: &str, key: &str, value: Value) -> Result<(), Self::Error>;

    /// Deletes `key` from `table`.
    fn del(&mut self, table: &str, key: &str) -> Result<(), Self::Error>;

    /// Gets every `Kvpair` of `table`.
    fn get_all(&mut self, table: &str) -> Result<Vec<Kvpair>, Self::Error>;

    /// Walks the `Kvpair`s of `table`, as they were when the walk began.
    fn get_iter(&mut self, table: &str) -> Result<StorageIter<Vec<(String, Value)>>, Self::Error>;
}

/// A walk over stored pairs.
pub struct StorageIter<T> {
    inner: T,
}

impl<T> StorageIter<T> {
    /// What the walk goes over.
    pub closed spec fn source(&self) -> T {
        self.inner
    }

    pub fn new(inner: T) -> (it: Self)
        ensures
            it.source() == inner,
    {
        Self { inner }
    }
}

impl<T> View for StorageIter<Vec<T>> {
    type V = Seq<T>;

    /// The items that the walk has not given yet, in the order it gives them.
    open spec fn view(&self) -> Seq<T> {
        self.source()@
    }
}

impl StorageIter<Vec<(String, Value)>> {
    /// The next pair of the walk, in the order of what it walks over, or
    /// `None` when every pair has been given.
    pub fn next(&mut self) -> (r: Option<Kvpair>)
        ensures
            old(self)@.len() == 0 ==> r is None && final(self)@ == old(self)@,
            old(self)@.len() > 0 ==> r == Some(Kvpair { key: old(self)@[0].0, val: old(self)@[0].1 })
                && final(self)@ == old(self)@.drop_first(),
    {
        if self.inner.len() == 0 {
            return None;
        }
        let item = self.inner.remove(0);
        proof {
            assert(self.inner@ =~= old(self)@.drop_first());
        }
        Some(Kvpair::from(item))
    }

    /// Walks to the end: every pair not given yet, once each, in walk order.
    pub fn collect(self) -> (pairs: Vec<Kvpair>)
        ensures
            kv_items(pairs@) == self@,
    {
        let ghost all = self@;
        let mut it = self;
        let mut pairs: Vec<Kvpair> = Vec::new();
        while it.inner.len() > 0
            invariant
                kv_items(pairs@) + it@ == all,
            decreases it@.len(),
        {
            let ghost before = pairs@;
            let ghost rest = it@;
            match it.next() {
                Some(p) => {
                    pairs.push(p);
                    proof {
                        assert(kv_items(pairs@) =~= kv_items(before).push(rest[0]));
                        assert(kv_items(pairs@) + it@ =~= kv_items(before) + rest);
                    }
                },
                None => {},
            }
        }
        proof {
            assert(kv_items(pairs@) + it@ =~= kv_items(pairs@));
        }
        pairs
    }
}

} // verus!
