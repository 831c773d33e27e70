//! An in-memory model of the persistent storage backend.
//!
//! The deployed environment offers a byte-keyed store with upsert writes;
//! this model gives the same interface as plain data, viewed as a map from
//! 32-byte keys to byte strings.  Writes append to a log and reads take the
//! latest entry, so a write is exactly a map insert.

use vstd::prelude::*;

verus! {

/// Compare two 32-byte keys.
pub fn keys_equal(a: &[u8; 32], b: &[u8; 32]) -> (r: bool)
    ensures
        r <==> a@ == b@,
{
    let mut i: usize = 0;
    while i < 32
        invariant
            i <= 32,
            forall|j: int| 0 <= j < i ==> a@[j] == b@[j],
        decreases 32 - i,
    {
        if a[i] != b[i] {
            return false;
        }
        i = i + 1;
    }
    proof {
        assert(a@ =~= b@);
    }
    true
}

/// Copy a byte vector.
pub fn copy_bytes(v: &Vec<u8>) -> (r: Vec<u8>)
    ensures
        r@ == v@,
{
    let mut r: Vec<u8> = Vec::new();
    let mut i: usize = 0;
    while i < v.len()
        invariant
            i <= v@.len(),
            r@ =~= v@.take(i as int),
        decreases v@.len() - i,
    {
        r.push(v[i]);
        i = i + 1;
    }
    proof {
        assert(r@ =~= v@);
    }
    r
}

/// The storage state a log of writes denotes: later writes win.
pub open spec fn log_map(entries: Seq<([u8; 32], Vec<u8>)>) -> Map<Seq<u8>, Seq<u8>>
    decreases entries.len(),
{
    if entries.len() == 0 {
        Map::empty()
    } else {
        log_map(entries.drop_last()).insert(entries.last().0@, entries.last().1@)
    }
}

/// The in-memory storage backend.
pub struct MemoryBackend {
    entries: Vec<([u8; 32], Vec<u8>)>,
}

impl View for MemoryBackend {
    type V = Map<Seq<u8>, Seq<u8>>;

    closed spec fn view(&self) -> Map<Seq<u8>, Seq<u8>> {
        log_map(self.entries@)
    }
}

/// The latest value written at `key` in a log, if any.
spec fn log_lookup(entries: Seq<([u8; 32], Vec<u8>)>, key: Seq<u8>) -> Option<Seq<u8>>
    decreases entries.len(),
{
    if entries.len() == 0 {
        None
    } else if entries.last().0@ == key {
        Some(entries.last().1@)
    } else {
        log_lookup(entries.drop_last(), key)
    }
}

/// A log's lookup agrees with the map it denotes.
proof fn lemma_log_lookup(entries: Seq<([u8; 32], Vec<u8>)>, key: Seq<u8>)
    ensures
        log_map(entries).contains_key(key) <==> log_lookup(entries, key) is Some,
        log_lookup(entries, key) matches Some(v) ==> log_map(entries)[key] == v,
    decreases entries.len(),
{
    if entries.len() > 0 {
        lemma_log_lookup(entries.drop_last(), key);
    }
}

impl MemoryBackend {
    /// An empty backend: no key holds a value.
    pub fn new() -> (b: MemoryBackend)
        ensures
            b@ == Map::<Seq<u8>, Seq<u8>>::empty(),
    {
        MemoryBackend { entries: Vec::new() }
    }

    /// Write `value` at `key`, inserting or overwriting.
    pub fn set_raw(&mut self, key: &[u8; 32], value: &[u8])
        ensures
            final(self)@ == old(self)@.insert(key@, value@),
    {
        let mut owned: Vec<u8> = Vec::new();
        let mut i: usize = 0;
        while i < value.len()
            invariant
                i <= value@.len(),
                owned@ =~= value@.take(i as int),
            decreases value@.len() - i,
        {
            owned.push(value[i]);
            i = i + 1;
        }
        proof {
            assert(owned@ =~= value@);
        }
        self.entries.push((*key, owned));
        proof {
            assert(self.entries@.drop_last() =~= old(self).entries@);
        }
    }

    /// Read the value at `key`: `None` when no write has touched it.
    pub fn get_raw(&self, key: &[u8; 32]) -> (r: Option<Vec<u8>>)
        ensures
            match r {
                Option::Some(v) => self@.contains_key(key@) && v@ == self@[key@],
                Option::None => !self@.contains_key(key@),
            },
    {
        proof {
            assert(self.entries@.take(self.entries@.len() as int) =~= self.entries@);
        }
        let mut i: usize = self.entries.len();
        while i > 0
            invariant
                i <= self.entries@.len(),
                log_lookup(self.entries@, key@) == log_lookup(self.entries@.take(i as int), key@),
        decreases i,
        {
            i = i - 1;
            let hit = keys_equal(&self.entries[i].0, key);
            proof {
                assert(self.entries@.take(i as int + 1).last() == self.entries@[i as int]);
                assert(self.entries@.take(i as int + 1).drop_last() =~= self.entries@.take(
                    i as int,
                ));
            }
            if hit {
                proof {
                    assert(log_lookup(self.entries@.take(i as int + 1), key@) == Some(
                        self.entries@[i as int].1@,
                    ));
                    lemma_log_lookup(self.entries@, key@);
                    assert(self@.contains_key(key@) && self@[key@] == self.entries@[i as int].1@);
                }
                let v = copy_bytes(&self.entries[i].1);
                return Some(v);
            }
        }
        proof {
            assert(self.entries@.take(0) =~= Seq::<([u8; 32], Vec<u8>)>::empty());
            lemma_log_lookup(self.entries@, key@);
        }
        None
    }

    /// Whether any write has touched `key`.
    pub fn contains_key(&self, key: &[u8; 32]) -> (r: bool)
        ensures
            r == self@.contains_key(key@),
    {
        match self.get_raw(key) {
            Option::Some(_) => true,
            Option::None => false,
        }
    }
}

} // verus!
