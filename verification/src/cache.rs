//! The typed key-value cache handlers write into: string keys, tagged
//! values, last write wins, no eviction and no read surface.  The
//! server core only passes a handle to it; handlers mutate it.
//!
//! Floating-point values, which the process around the server may also
//! store, are outside this data model and live with that process.

use vstd::prelude::*;
use crate::handler::strs_to_strings;

verus! {

/// One stored value.
pub enum CacheValue {
    Int(i32),
    Int64(i64),
    Str(String),
    StrVec(Vec<String>),
    IntVec(Vec<i32>),
    I64Vec(Vec<i64>),
}

/// The mapping held by a sequence of writes: each later write to a key
/// shadows the earlier ones.
pub open spec fn entries_map(s: Seq<(String, CacheValue)>) -> Map<Seq<char>, CacheValue>
    decreases s.len(),
{
    if s.len() == 0 {
        Map::empty()
    } else {
        entries_map(s.drop_last()).insert(s.last().0@, s.last().1)
    }
}

/// The cache: a save location it was created with, and the writes made
/// so far.
pub struct Cache {
    pub savelocation: String,
    pub cache: Vec<(String, CacheValue)>,
}

impl Cache {
    /// What the cache currently holds, key by key.
    pub open spec fn contents(self) -> Map<Seq<char>, CacheValue> {
        entries_map(self.cache@)
    }

    /// An empty cache remembering where it would be saved.
    pub fn new(savelocation: String) -> (r: Cache)
        ensures
            r.savelocation == savelocation,
            r.contents() == Map::<Seq<char>, CacheValue>::empty(),
    {
        let r = Cache { savelocation, cache: Vec::new() };
        r
    }

    fn put(&mut self, key: String, value: CacheValue)
        ensures
            final(self).contents() == old(self).contents().insert(key@, value),
            final(self).savelocation == old(self).savelocation,
    {
        let ghost k = key@;
        let ghost v = value;
        self.cache.push((key, value));
        proof {
            assert(self.cache@.drop_last() =~= old(self).cache@);
            assert(self.cache@.last().0@ == k);
            assert(self.cache@.last().1 == v);
            assert(self.contents() == old(self).contents().insert(k, v));
        }
    }

    /// Stores a 32-bit integer under a borrowed key.
    pub fn add_int32(&mut self, key: &str, val: i32)
        ensures
            final(self).contents() == old(self).contents().insert(key@, CacheValue::Int(val)),
            final(self).savelocation == old(self).savelocation,
    {
        self.add_i32(String::from_str(key), val)
    }

    /// Stores a 32-bit integer.
    pub fn add_i32(&mut self, key: String, value: i32)
        ensures
            final(self).contents() == old(self).contents().insert(key@, CacheValue::Int(value)),
            final(self).savelocation == old(self).savelocation,
    {
        self.put(key, CacheValue::Int(value))
    }

    /// Stores a 64-bit integer under a borrowed key.
    pub fn add_int64(&mut self, key: &str, val: i64)
        ensures
            final(self).contents() == old(self).contents().insert(key@, CacheValue::Int64(val)),
            final(self).savelocation == old(self).savelocation,
    {
        self.add_i64(String::from_str(key), val)
    }

    /// Stores a 64-bit integer.
    pub fn add_i64(&mut self, key: String, value: i64)
        ensures
            final(self).contents() == old(self).contents().insert(key@, CacheValue::Int64(value)),
            final(self).savelocation == old(self).savelocation,
    {
        self.put(key, CacheValue::Int64(value))
    }

    /// Stores a string under a borrowed key.
    pub fn add_str(&mut self, key: &str, val: &str)
        ensures
            exists|s: String|
                s@ == val@ && final(self).contents() == old(self).contents().insert(
                    key@,
                    CacheValue::Str(s),
                ),
            final(self).savelocation == old(self).savelocation,
    {
        self.add_string(String::from_str(key), String::from_str(val))
    }

    /// Stores a string.
    pub fn add_string(&mut self, key: String, value: String)
        ensures
            final(self).contents() == old(self).contents().insert(key@, CacheValue::Str(value)),
            final(self).savelocation == old(self).savelocation,
    {
        self.put(key, CacheValue::Str(value))
    }

    /// Stores a list of strings given as borrowed slices.
    pub fn add_vec_str(&mut self, key: &str, value: Vec<&str>)
        ensures
            exists|v: Vec<String>|
                v.deep_view() == value.deep_view() && final(self).contents() == old(
                    self,
                ).contents().insert(key@, CacheValue::StrVec(v)),
            final(self).savelocation == old(self).savelocation,
    {
        let owned = strs_to_strings(&value);
        self.add_string_vector(String::from_str(key), owned)
    }

    /// Stores a list of strings under a borrowed key.
    pub fn add_vec_string(&mut self, key: &str, value: Vec<String>)
        ensures
            final(self).contents() == old(self).contents().insert(key@, CacheValue::StrVec(value)),
            final(self).savelocation == old(self).savelocation,
    {
        self.add_string_vector(String::from_str(key), value)
    }

    /// Stores a list of strings.
    pub fn add_string_vector(&mut self, key: String, value: Vec<String>)
        ensures
            final(self).contents() == old(self).contents().insert(key@, CacheValue::StrVec(value)),
            final(self).savelocation == old(self).savelocation,
    {
        self.put(key, CacheValue::StrVec(value))
    }

    /// Stores a list of 32-bit integers under a borrowed key.
    pub fn add_vec_int(&mut self, key: &str, value: Vec<i32>)
        ensures
            final(self).contents() == old(self).contents().insert(key@, CacheValue::IntVec(value)),
            final(self).savelocation == old(self).savelocation,
    {
        self.add_int_vector(String::from_str(key), value)
    }

    /// Stores a list of 32-bit integers.
    pub fn add_int_vector(&mut self, key: String, value: Vec<i32>)
        ensures
            final(self).contents() == old(self).contents().insert(key@, CacheValue::IntVec(value)),
            final(self).savelocation == old(self).savelocation,
    {
        self.put(key, CacheValue::IntVec(value))
    }

    /// Stores a list of 64-bit integers under a borrowed key.
    pub fn add_vec_i64(&mut self, key: &str, value: Vec<i64>)
        ensures
            final(self).contents() == old(self).contents().insert(key@, CacheValue::I64Vec(value)),
            final(self).savelocation == old(self).savelocation,
    {
        self.add_i64_vector(String::from_str(key), value)
    }

    /// Stores a list of 64-bit integers.
    pub fn add_i64_vector(&mut self, key: String, value: Vec<i64>)
        ensures
            final(self).contents() == old(self).contents().insert(key@, CacheValue::I64Vec(value)),
            final(self).savelocation == old(self).savelocation,
    {
        self.put(key, CacheValue::I64Vec(value))
    }
}

/// Writes applied one after the other never interleave within a key:
/// after two whole writes the later value stands for a shared key, and
/// for distinct keys each write's value stands untouched.  Every
/// `add_` operation ensures one whole `insert`, so any serial order of
/// such calls has this shape.
pub proof fn lemma_serialized_writes(
    m: Map<Seq<char>, CacheValue>,
    k1: Seq<char>,
    v1: CacheValue,
    k2: Seq<char>,
    v2: CacheValue,
)
    ensures
        m.insert(k1, v1).insert(k2, v2)[k2] == v2,
        k1 != k2 ==> m.insert(k1, v1).insert(k2, v2)[k1] == v1,
{
}

} // verus!
