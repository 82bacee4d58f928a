//! A map from strings to strings with both first-writer-wins and
//! last-writer-wins insertion. Keys are spread over a fixed number of
//! buckets by a hash of their characters, so that a lookup only compares
//! against the keys of one bucket.

use vstd::prelude::*;

verus! {

/// `m` with `k` bound to `v`, unless `k` is bound already.
pub open spec fn insert_absent(
    m: Map<Seq<char>, Seq<char>>,
    k: Seq<char>,
    v: Seq<char>,
) -> Map<Seq<char>, Seq<char>> {
    if m.contains_key(k) {
        m
    } else {
        m.insert(k, v)
    }
}

/// The number of buckets.
pub const BUCKETS: usize = 4096;

/// The modulus of the key hash.
pub const HASH_MODULUS: u64 = 1000003;

/// A polynomial hash of the characters of a key.
pub open spec fn key_hash(s: Seq<char>) -> nat
    decreases s.len(),
{
    if s.len() == 0 {
        0
    } else {
        ((key_hash(s.drop_last()) * 31 + (s.last() as u32)) % (HASH_MODULUS as int)) as nat
    }
}

/// The bucket that holds a key.
pub open spec fn bucket_of(s: Seq<char>) -> int {
    key_hash(s) as int % (BUCKETS as int)
}

/// Computes the bucket of a key.
fn bucket_index(key: &str) -> (r: usize)
    ensures
        r == bucket_of(key@),
        r < BUCKETS,
{
    let mut h: u64 = 0;
    let ghost s = key@;
    assert(s.take(0) =~= Seq::<char>::empty());
    for c in it: key.chars()
        invariant
            it.seq() == s,
            h < HASH_MODULUS,
            h == key_hash(s.take(it.index() as int)),
    {
        let ghost i = it.index();
        assert(s.take(i + 1).drop_last() =~= s.take(i as int));
        assert(c == s[i as int]);
        h = (h * 31 + (c as u32) as u64) % HASH_MODULUS;
    }
    assert(s.take(s.len() as int) =~= s);
    (h % (BUCKETS as u64)) as usize
}

/// A string-keyed map; its view is the mathematical map it holds.
pub struct StringMap {
    buckets: Vec<Vec<(String, String)>>,
    model: Ghost<Map<Seq<char>, Seq<char>>>,
}

impl View for StringMap {
    type V = Map<Seq<char>, Seq<char>>;

    closed spec fn view(&self) -> Map<Seq<char>, Seq<char>> {
        self.model@
    }
}

impl StringMap {
    closed spec fn entry(&self, b: int, i: int) -> (String, String) {
        self.buckets@[b]@[i]
    }

    /// Each entry sits in its key's bucket and is a binding of the model;
    /// each binding of the model has an entry; no key has two entries.
    pub closed spec fn wf(&self) -> bool {
        &&& self.buckets.len() == BUCKETS
        &&& forall|b: int, i: int|
            0 <= b < BUCKETS && 0 <= i < self.buckets@[b].len() ==> bucket_of(
                #[trigger] self.entry(b, i).0@,
            ) == b && self.model@.contains_key(self.entry(b, i).0@) && self.model@[self.entry(
                b,
                i,
            ).0@] == self.entry(b, i).1@
        &&& forall|k: Seq<char>|
            #[trigger] self.model@.contains_key(k) ==> exists|i: int|
                0 <= i < self.buckets@[bucket_of(k)].len() && #[trigger] self.entry(bucket_of(k), i).0@
                    == k
        &&& forall|b: int, i: int, j: int|
            0 <= b < BUCKETS && 0 <= i < j < self.buckets@[b].len() ==> #[trigger] self.entry(b, i).0@
                != #[trigger] self.entry(b, j).0@
    }

    fn empty_buckets() -> (r: Vec<Vec<(String, String)>>)
        ensures
            r.len() == BUCKETS,
            forall|b: int| 0 <= b < BUCKETS ==> (#[trigger] r@[b]).len() == 0,
    {
        let mut r: Vec<Vec<(String, String)>> = Vec::new();
        let mut b: usize = 0;
        while b < BUCKETS
            invariant
                b <= BUCKETS,
                r.len() == b,
                forall|c: int| 0 <= c < b ==> (#[trigger] r@[c]).len() == 0,
            decreases BUCKETS - b,
        {
            r.push(Vec::new());
            b = b + 1;
        }
        r
    }

    /// An empty map.
    pub fn new() -> (r: StringMap)
        ensures
            r.wf(),
            r@ == Map::<Seq<char>, Seq<char>>::empty(),
    {
        StringMap { buckets: Self::empty_buckets(), model: Ghost(Map::empty()) }
    }

    /// Removes every binding.
    pub fn clear(&mut self)
        ensures
            final(self).wf(),
            final(self)@ == Map::<Seq<char>, Seq<char>>::empty(),
    {
        self.buckets = Self::empty_buckets();
        self.model = Ghost(Map::empty());
    }

    /// The position of `key` in bucket `b`.
    fn find(&self, b: usize, key: &String) -> (r: Option<usize>)
        requires
            self.wf(),
            b == bucket_of(key@),
        ensures
            r is Some ==> r->0 < self.buckets@[b as int].len() && self.entry(b as int, r->0 as int).0@
                == key@,
            r is None ==> !self@.contains_key(key@),
    {
        let bucket = &self.buckets[b];
        let mut i: usize = 0;
        while i < bucket.len()
            invariant
                self.wf(),
                b < BUCKETS,
                bucket == self.buckets@[b as int],
                i <= bucket.len(),
                forall|j: int| 0 <= j < i ==> self.entry(b as int, j).0@ != key@,
            decreases bucket.len() - i,
        {
            if bucket[i].0 == *key {
                return Some(i);
            }
            i = i + 1;
        }
        None
    }

    /// The value bound to `key`, if any.
    pub fn get(&self, key: &str) -> (r: Option<&String>)
        requires
            self.wf(),
        ensures
            r is Some <==> self@.contains_key(key@),
            r is Some ==> r->0@ == self@[key@],
    {
        let k = key.to_owned();
        let b = bucket_index(key);
        match self.find(b, &k) {
            Some(i) => {
                assert(self.model@.contains_key(self.entry(b as int, i as int).0@));
                Some(&self.buckets[b][i].1)
            },
            None => None,
        }
    }

    /// Binds `key` to `value` unless `key` is bound already.
    pub fn insert_if_absent(&mut self, key: String, value: String)
        requires
            old(self).wf(),
        ensures
            final(self).wf(),
            final(self)@ == insert_absent(old(self)@, key@, value@),
    {
        let b = bucket_index(key.as_str());
        if self.find(b, &key).is_none() {
            self.put(b, None, key, value);
        }
    }

    /// Binds `key` to `value`, replacing an earlier binding.
    pub fn insert(&mut self, key: String, value: String)
        requires
            old(self).wf(),
        ensures
            final(self).wf(),
            final(self)@ == old(self)@.insert(key@, value@),
    {
        let b = bucket_index(key.as_str());
        let at = self.find(b, &key);
        self.put(b, at, key, value);
    }

    /// Stores the binding in bucket `b`: over the entry at `at`, which holds
    /// the key, or as a new entry when the key is unbound.
    fn put(&mut self, b: usize, at: Option<usize>, key: String, value: String)
        requires
            old(self).wf(),
            b == bucket_of(key@),
            at matches Some(i) ==> i < old(self).buckets@[b as int].len() && old(self).entry(
                b as int,
                i as int,
            ).0@ == key@,
            at is None ==> !old(self)@.contains_key(key@),
        ensures
            final(self).wf(),
            final(self)@ == old(self)@.insert(key@, value@),
    {
        let ghost k = key@;
        let ghost v = value@;
        let ghost old_self = *self;
        let mut bucket: Vec<(String, String)> = Vec::new();
        std::mem::swap(&mut bucket, &mut self.buckets[b]);
        let ghost old_bucket = bucket@;
        match at {
            Some(i) => bucket.set(i, (key, value)),
            None => bucket.push((key, value)),
        }
        let ghost new_bucket = bucket@;
        std::mem::swap(&mut bucket, &mut self.buckets[b]);
        self.model = Ghost(self.model@.insert(k, v));
        assert(self.buckets@ == old_self.buckets@.update(b as int, self.buckets@[b as int]));
        assert(self.buckets@[b as int]@ == new_bucket);
        assert forall|c: int, i: int|
            0 <= c < BUCKETS && 0 <= i < self.buckets@[c].len() implies bucket_of(
            #[trigger] self.entry(c, i).0@,
        ) == c && self.model@.contains_key(self.entry(c, i).0@) && self.model@[self.entry(
            c,
            i,
        ).0@] == self.entry(c, i).1@ by {
            if c != b || new_bucket[i].0@ != k {
                assert(self.entry(c, i) == old_self.entry(c, i));
                assert(old_self.model@.contains_key(old_self.entry(c, i).0@));
            } else {
                match at {
                    Some(p) => {
                        if i != p as int {
                            assert(self.entry(c, i) == old_self.entry(c, i));
                            if i < p {
                                assert(old_self.entry(c, i).0@ != old_self.entry(c, p as int).0@);
                            } else {
                                assert(old_self.entry(c, p as int).0@ != old_self.entry(c, i).0@);
                            }
                        }
                    },
                    None => {
                        if i < old_bucket.len() {
                            assert(self.entry(c, i) == old_self.entry(c, i));
                            assert(old_self.model@.contains_key(old_self.entry(c, i).0@));
                        }
                    },
                }
            }
        }
        assert forall|kk: Seq<char>| #[trigger] self.model@.contains_key(kk) implies exists|i: int|
            0 <= i < self.buckets@[bucket_of(kk)].len() && #[trigger] self.entry(bucket_of(kk), i).0@
                == kk by {
            if kk != k {
                let i = choose|i: int|
                    0 <= i < old_self.buckets@[bucket_of(kk)].len() && #[trigger] old_self.entry(
                        bucket_of(kk),
                        i,
                    ).0@ == kk;
                assert(self.entry(bucket_of(kk), i) == old_self.entry(bucket_of(kk), i));
            } else {
                match at {
                    Some(i) => assert(self.entry(b as int, i as int).0@ == kk),
                    None => assert(self.entry(b as int, old_bucket.len() as int).0@ == kk),
                }
            }
        }
        assert forall|c: int, i: int, j: int|
            0 <= c < BUCKETS && 0 <= i < j < self.buckets@[c].len() implies #[trigger] self.entry(
            c,
            i,
        ).0@ != #[trigger] self.entry(c, j).0@ by {
            if c == b {
                match at {
                    Some(p) => {
                        if i != p as int && j != p as int {
                            assert(self.entry(c, i) == old_self.entry(c, i));
                            assert(self.entry(c, j) == old_self.entry(c, j));
                        } else if i == p as int {
                            assert(old_self.entry(c, j).0@ != old_self.entry(c, i).0@);
                            assert(self.entry(c, j) == old_self.entry(c, j));
                        } else {
                            assert(old_self.entry(c, j).0@ != old_self.entry(c, i).0@);
                            assert(self.entry(c, i) == old_self.entry(c, i));
                        }
                    },
                    None => {
                        if j < old_bucket.len() {
                            assert(self.entry(c, i) == old_self.entry(c, i));
                            assert(self.entry(c, j) == old_self.entry(c, j));
                        } else {
                            assert(self.entry(c, i) == old_self.entry(c, i));
                            assert(old_self.model@.contains_key(old_self.entry(c, i).0@));
                        }
                    },
                }
            } else {
                assert(self.entry(c, i) == old_self.entry(c, i));
                assert(self.entry(c, j) == old_self.entry(c, j));
            }
        }
    }
}

} // verus!
