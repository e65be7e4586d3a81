//! Verified association maps.
//!
//! The ledger's maps (balances, nonces, the allow-list, the audit trail) are
//! held as vectors of key-value pairs with pairwise-distinct keys. The spec
//! functions below give them map semantics: `slookup` finds a key's value,
//! `supsert` inserts or replaces in place, `sremove` deletes.

use vstd::prelude::*;
use crate::addr::Address;

verus! {

/// The value bound to `k`, reading entries left to right.
pub open spec fn slookup<K, V>(s: Seq<(K, V)>, k: K) -> Option<V>
    decreases s.len(),
{
    if s.len() <= 0 {
        None
    } else if s[0].0 == k {
        Some(s[0].1)
    } else {
        slookup(s.skip(1), k)
    }
}

/// Replaces the first entry keyed `k` in place, or appends one.
pub open spec fn supsert<K, V>(s: Seq<(K, V)>, k: K, v: V) -> Seq<(K, V)>
    decreases s.len(),
{
    if s.len() <= 0 {
        seq![(k, v)]
    } else if s[0].0 == k {
        seq![(k, v)] + s.skip(1)
    } else {
        seq![s[0]] + supsert(s.skip(1), k, v)
    }
}

/// Drops the first entry keyed `k`, if any.
pub open spec fn sremove<K, V>(s: Seq<(K, V)>, k: K) -> Seq<(K, V)>
    decreases s.len(),
{
    if s.len() <= 0 {
        s
    } else if s[0].0 == k {
        s.skip(1)
    } else {
        seq![s[0]] + sremove(s.skip(1), k)
    }
}

/// No two entries share a key.
pub open spec fn skeys_unique<K, V>(s: Seq<(K, V)>) -> bool {
    forall|i: int, j: int| 0 <= i < j < s.len() ==> s[i].0 != s[j].0
}

/// Looking a key up after an upsert: the upserted key reads back its new
/// value; every other key is untouched.
pub proof fn lemma_slookup_supsert<K, V>(s: Seq<(K, V)>, k: K, v: V, q: K)
    ensures
        slookup(supsert(s, k, v), q) == (if q == k {
            Some(v)
        } else {
            slookup(s, q)
        }),
    decreases s.len(),
{
    let t = supsert(s, k, v);
    if s.len() <= 0 {
        assert(t.len() == 1 && t[0] == (k, v));
        if q != k {
            assert(t.skip(1) =~= Seq::<(K, V)>::empty());
            assert(slookup(t, q) == slookup(t.skip(1), q));
            assert(slookup(t.skip(1), q) is None);
        }
    } else if s[0].0 == k {
        assert(t[0] == (k, v));
        assert(t.skip(1) =~= s.skip(1));
        if q != k {
            assert(slookup(t, q) == slookup(s.skip(1), q));
            assert(slookup(s, q) == slookup(s.skip(1), q));
        }
    } else {
        lemma_slookup_supsert(s.skip(1), k, v, q);
        assert(t[0] == s[0]);
        assert(t.skip(1) =~= supsert(s.skip(1), k, v));
        if q != s[0].0 {
            assert(slookup(t, q) == slookup(t.skip(1), q));
            assert(slookup(s, q) == slookup(s.skip(1), q));
        }
    }
}

/// An upsert keeps the keys pairwise distinct.
pub proof fn lemma_supsert_unique<K, V>(s: Seq<(K, V)>, k: K, v: V)
    requires
        skeys_unique(s),
    ensures
        skeys_unique(supsert(s, k, v)),
    decreases s.len(),
{
    if s.len() <= 0 {
    } else if s[0].0 == k {
        assert forall|i: int, j: int|
            0 <= i < j < supsert(s, k, v).len() implies supsert(s, k, v)[i].0 != supsert(
            s,
            k,
            v,
        )[j].0 by {
            assert(supsert(s, k, v) =~= seq![(k, v)] + s.skip(1));
            if i > 0 {
                assert(s[i] == supsert(s, k, v)[i]);
                assert(s[j] == supsert(s, k, v)[j]);
            } else {
                assert(supsert(s, k, v)[j] == s[j]);
            }
        }
    } else {
        assert(forall|q: K| slookup(s.skip(1), q) is Some ==> exists|i: int|
            1 <= i < s.len() && s[i].0 == q) by {
            lemma_slookup_some_index(s.skip(1));
        }
        lemma_supsert_unique(s.skip(1), k, v);
        lemma_supsert_keyset(s.skip(1), k, v);
        assert forall|i: int, j: int|
            0 <= i < j < supsert(s, k, v).len() implies supsert(s, k, v)[i].0 != supsert(
            s,
            k,
            v,
        )[j].0 by {
            let t = supsert(s.skip(1), k, v);
            if i == 0 {
                assert(supsert(s, k, v)[j] == t[j - 1]);
                if t[j - 1].0 == s[0].0 {
                    assert(exists|m: int| 0 <= m < s.skip(1).len() && s.skip(1)[m].0 == t[j - 1].0
                        || t[j - 1].0 == k);
                }
            } else {
                assert(supsert(s, k, v)[i] == t[i - 1]);
                assert(supsert(s, k, v)[j] == t[j - 1]);
            }
        }
    }
}

/// Every key of an upserted sequence is the new key or one of the old keys.
pub proof fn lemma_supsert_keyset<K, V>(s: Seq<(K, V)>, k: K, v: V)
    ensures
        forall|i: int|
            0 <= i < supsert(s, k, v).len() ==> supsert(s, k, v)[i].0 == k || exists|j: int|
                0 <= j < s.len() && s[j].0 == #[trigger] supsert(s, k, v)[i].0,
    decreases s.len(),
{
    if s.len() <= 0 {
    } else if s[0].0 == k {
        assert forall|i: int| 0 <= i < supsert(s, k, v).len() implies supsert(s, k, v)[i].0 == k
            || exists|j: int| 0 <= j < s.len() && s[j].0 == supsert(s, k, v)[i].0 by {
            if i > 0 {
                assert(supsert(s, k, v)[i] == s[i]);
            }
        }
    } else {
        lemma_supsert_keyset(s.skip(1), k, v);
        assert forall|i: int| 0 <= i < supsert(s, k, v).len() implies supsert(s, k, v)[i].0 == k
            || exists|j: int| 0 <= j < s.len() && s[j].0 == supsert(s, k, v)[i].0 by {
            if i == 0 {
                assert(s[0].0 == supsert(s, k, v)[0].0);
            } else {
                let t = supsert(s.skip(1), k, v);
                assert(supsert(s, k, v)[i] == t[i - 1]);
                if t[i - 1].0 != k {
                    let j = choose|j: int| 0 <= j < s.skip(1).len() && s.skip(1)[j].0 == t[i
                        - 1].0;
                    assert(s[j + 1].0 == t[i - 1].0);
                }
            }
        }
    }
}

/// A key that looks up to a value stands at some index.
pub proof fn lemma_slookup_some_index<K, V>(s: Seq<(K, V)>)
    ensures
        forall|q: K| slookup(s, q) is Some ==> exists|i: int| 0 <= i < s.len() && s[i].0 == q,
    decreases s.len(),
{
    if s.len() > 0 {
        lemma_slookup_some_index(s.skip(1));
        assert forall|q: K| slookup(s, q) is Some implies exists|i: int|
            0 <= i < s.len() && s[i].0 == q by {
            if s[0].0 == q {
                assert(0 <= 0 < s.len() && s[0].0 == q);
            } else {
                assert(slookup(s.skip(1), q) is Some);
                let i = choose|i: int| 0 <= i < s.skip(1).len() && s.skip(1)[i].0 == q;
                assert(s.skip(1)[i] == s[i + 1]);
                assert(0 <= i + 1 < s.len() && s[i + 1].0 == q);
            }
        }
    }
}

/// A key that looks up to nothing stands at no index.
pub proof fn lemma_slookup_none_no_index<K, V>(s: Seq<(K, V)>, q: K)
    requires
        slookup(s, q) is None,
    ensures
        forall|i: int| 0 <= i < s.len() ==> s[i].0 != q,
    decreases s.len(),
{
    if s.len() > 0 {
        lemma_slookup_none_no_index(s.skip(1), q);
        assert forall|i: int| 0 <= i < s.len() implies s[i].0 != q by {
            if i > 0 {
                assert(s.skip(1)[i - 1] == s[i]);
            }
        }
    }
}

/// A key at no index looks up to nothing.
pub proof fn lemma_slookup_none_when_absent<K, V>(s: Seq<(K, V)>, q: K)
    requires
        forall|i: int| 0 <= i < s.len() ==> s[i].0 != q,
    ensures
        slookup(s, q) is None,
    decreases s.len(),
{
    if s.len() > 0 {
        lemma_slookup_none_when_absent(s.skip(1), q);
    }
}

/// Removal keeps the keys pairwise distinct.
pub proof fn lemma_sremove_unique<K, V>(s: Seq<(K, V)>, k: K)
    requires
        skeys_unique(s),
    ensures
        skeys_unique(sremove(s, k)),
    decreases s.len(),
{
    if s.len() <= 0 {
    } else if s[0].0 == k {
    } else {
        assert(skeys_unique(s.skip(1)));
        lemma_sremove_unique(s.skip(1), k);
        lemma_sremove_keyset(s.skip(1), k);
        assert forall|i: int, j: int|
            0 <= i < j < sremove(s, k).len() implies sremove(s, k)[i].0 != sremove(s, k)[j].0 by {
            let t = sremove(s.skip(1), k);
            if i == 0 {
                assert(sremove(s, k)[j] == t[j - 1]);
                if t[j - 1].0 == s[0].0 {
                    let m = choose|m: int| 0 <= m < s.skip(1).len() && s.skip(1)[m].0 == t[j
                        - 1].0;
                    assert(s[m + 1].0 == s[0].0);
                }
            } else {
                assert(sremove(s, k)[i] == t[i - 1]);
                assert(sremove(s, k)[j] == t[j - 1]);
            }
        }
    }
}

/// Every key of a removal's result was a key of the input.
pub proof fn lemma_sremove_keyset<K, V>(s: Seq<(K, V)>, k: K)
    ensures
        forall|i: int|
            0 <= i < sremove(s, k).len() ==> exists|j: int|
                0 <= j < s.len() && s[j].0 == #[trigger] sremove(s, k)[i].0,
    decreases s.len(),
{
    if s.len() <= 0 {
    } else if s[0].0 == k {
        assert forall|i: int| 0 <= i < sremove(s, k).len() implies exists|j: int|
            0 <= j < s.len() && s[j].0 == #[trigger] sremove(s, k)[i].0 by {
            assert(s[i + 1].0 == sremove(s, k)[i].0);
        }
    } else {
        lemma_sremove_keyset(s.skip(1), k);
        assert forall|i: int| 0 <= i < sremove(s, k).len() implies exists|j: int|
            0 <= j < s.len() && s[j].0 == #[trigger] sremove(s, k)[i].0 by {
            if i == 0 {
                assert(s[0].0 == sremove(s, k)[0].0);
            } else {
                let t = sremove(s.skip(1), k);
                assert(sremove(s, k)[i] == t[i - 1]);
                let j = choose|j: int| 0 <= j < s.skip(1).len() && s.skip(1)[j].0 == t[i - 1].0;
                assert(s[j + 1].0 == t[i - 1].0);
            }
        }
    }
}

/// When no entry carries key `k`, an upsert is an append.
pub proof fn lemma_supsert_absent<K, V>(s: Seq<(K, V)>, k: K, v: V)
    requires
        forall|i: int| 0 <= i < s.len() ==> s[i].0 != k,
    ensures
        supsert(s, k, v) == s.push((k, v)),
    decreases s.len(),
{
    if s.len() <= 0 {
        assert(supsert(s, k, v) =~= s.push((k, v)));
    } else {
        lemma_supsert_absent(s.skip(1), k, v);
        assert(supsert(s, k, v) =~= s.push((k, v)));
    }
}

/// When the first entry carrying key `k` stands at `i`, an upsert is an
/// in-place update of that entry.
pub proof fn lemma_supsert_at_index<K, V>(s: Seq<(K, V)>, k: K, v: V, i: int)
    requires
        0 <= i < s.len(),
        s[i].0 == k,
        forall|j: int| 0 <= j < i ==> s[j].0 != k,
    ensures
        supsert(s, k, v) == s.update(i, (k, v)),
    decreases i,
{
    if i == 0 {
        assert(supsert(s, k, v) =~= s.update(0, (k, v)));
    } else {
        lemma_supsert_at_index(s.skip(1), k, v, i - 1);
        assert(supsert(s, k, v) =~= s.update(i, (k, v)));
    }
}

/// When the first entry carrying key `k` stands at `i`, removal drops exactly
/// that entry.
pub proof fn lemma_sremove_at_index<K, V>(s: Seq<(K, V)>, k: K, i: int)
    requires
        0 <= i < s.len(),
        s[i].0 == k,
        forall|j: int| 0 <= j < i ==> s[j].0 != k,
    ensures
        sremove(s, k) == s.remove(i),
    decreases i,
{
    if i == 0 {
        assert(sremove(s, k) =~= s.remove(0));
    } else {
        lemma_sremove_at_index(s.skip(1), k, i - 1);
        assert(sremove(s, k) =~= s.remove(i));
    }
}

/// When no entry carries key `k`, removal changes nothing.
pub proof fn lemma_sremove_absent<K, V>(s: Seq<(K, V)>, k: K)
    requires
        forall|i: int| 0 <= i < s.len() ==> s[i].0 != k,
    ensures
        sremove(s, k) == s,
    decreases s.len(),
{
    if s.len() > 0 {
        lemma_sremove_absent(s.skip(1), k);
        assert(sremove(s, k) =~= s);
    }
}

/// Balances and nonces: an association map from addresses to 64-bit amounts.
#[derive(Clone, Debug)]
pub struct BalanceMap {
    pub entries: Vec<(Address, u64)>,
}

impl View for BalanceMap {
    type V = Seq<(Address, u64)>;

    open spec fn view(&self) -> Seq<(Address, u64)> {
        self.entries@
    }
}

impl BalanceMap {
    pub fn new() -> (r: BalanceMap)
        ensures
            r@ == Seq::<(Address, u64)>::empty(),
    {
        BalanceMap { entries: Vec::new() }
    }

    pub fn len(&self) -> (r: usize)
        ensures
            r == self@.len(),
    {
        self.entries.len()
    }

    /// Index of the first entry keyed `k`, if any.
    fn index_of(&self, k: Address) -> (r: Option<usize>)
        ensures
            match r {
                Some(i) => i < self@.len() && self@[i as int].0 == k && forall|j: int|
                    0 <= j < i ==> self@[j].0 != k,
                None => forall|j: int| 0 <= j < self@.len() ==> self@[j].0 != k,
            },
    {
        let n = self.entries.len();
        let mut i: usize = 0;
        while i < n
            invariant
                i <= n,
                n == self@.len(),
                forall|j: int| 0 <= j < i ==> self@[j].0 != k,
            decreases n - i,
        {
            if self.entries[i].0 == k {
                return Some(i);
            }
            i += 1;
        }
        None
    }

    pub fn get(&self, k: Address) -> (r: Option<u64>)
        ensures
            r == slookup(self@, k),
    {
        match self.index_of(k) {
            Some(i) => {
                proof {
                    lemma_slookup_at_index(self@, k, i as int);
                }
                Some(self.entries[i].1)
            },
            None => {
                proof {
                    lemma_slookup_none_when_absent(self@, k);
                }
                None
            },
        }
    }

    pub fn contains_key(&self, k: Address) -> (r: bool)
        ensures
            r == (slookup(self@, k) is Some),
    {
        self.get(k).is_some()
    }

    pub fn insert(&mut self, k: Address, v: u64)
        ensures
            final(self)@ == supsert(old(self)@, k, v),
    {
        match self.index_of(k) {
            Some(i) => {
                proof {
                    lemma_supsert_at_index(self@, k, v, i as int);
                }
                self.entries[i] = (k, v);
            },
            None => {
                proof {
                    lemma_supsert_absent(self@, k, v);
                }
                self.entries.push((k, v));
            },
        }
    }
}

/// The value bound to the first entry keyed `k`, which stands at `i`.
pub proof fn lemma_slookup_at_index<K, V>(s: Seq<(K, V)>, k: K, i: int)
    requires
        0 <= i < s.len(),
        s[i].0 == k,
        forall|j: int| 0 <= j < i ==> s[j].0 != k,
    ensures
        slookup(s, k) == Some(s[i].1),
    decreases i,
{
    if i > 0 {
        lemma_slookup_at_index(s.skip(1), k, i - 1);
    }
}

/// The governance allow-list: addresses of token mints mapped to flags.
#[derive(Clone, Debug)]
pub struct TokenMap {
    pub entries: Vec<(Address, bool)>,
}

impl View for TokenMap {
    type V = Seq<(Address, bool)>;

    open spec fn view(&self) -> Seq<(Address, bool)> {
        self.entries@
    }
}

impl TokenMap {
    pub fn new() -> (r: TokenMap)
        ensures
            r@ == Seq::<(Address, bool)>::empty(),
    {
        TokenMap { entries: Vec::new() }
    }

    pub fn len(&self) -> (r: usize)
        ensures
            r == self@.len(),
    {
        self.entries.len()
    }

    pub fn is_empty(&self) -> (r: bool)
        ensures
            r == (self@.len() == 0),
    {
        self.entries.len() == 0
    }

    fn index_of(&self, k: Address) -> (r: Option<usize>)
        ensures
            match r {
                Some(i) => i < self@.len() && self@[i as int].0 == k && forall|j: int|
                    0 <= j < i ==> self@[j].0 != k,
                None => forall|j: int| 0 <= j < self@.len() ==> self@[j].0 != k,
            },
    {
        let n = self.entries.len();
        let mut i: usize = 0;
        while i < n
            invariant
                i <= n,
                n == self@.len(),
                forall|j: int| 0 <= j < i ==> self@[j].0 != k,
            decreases n - i,
        {
            if self.entries[i].0 == k {
                return Some(i);
            }
            i += 1;
        }
        None
    }

    pub fn get(&self, k: Address) -> (r: Option<bool>)
        ensures
            r == slookup(self@, k),
    {
        match self.index_of(k) {
            Some(i) => {
                proof {
                    lemma_slookup_at_index(self@, k, i as int);
                }
                Some(self.entries[i].1)
            },
            None => {
                proof {
                    lemma_slookup_none_when_absent(self@, k);
                }
                None
            },
        }
    }

    pub fn insert(&mut self, k: Address, v: bool)
        ensures
            final(self)@ == supsert(old(self)@, k, v),
    {
        match self.index_of(k) {
            Some(i) => {
                proof {
                    lemma_supsert_at_index(self@, k, v, i as int);
                }
                self.entries[i] = (k, v);
            },
            None => {
                proof {
                    lemma_supsert_absent(self@, k, v);
                }
                self.entries.push((k, v));
            },
        }
    }

    pub fn remove(&mut self, k: Address)
        ensures
            final(self)@ == sremove(old(self)@, k),
    {
        match self.index_of(k) {
            Some(i) => {
                proof {
                    lemma_sremove_at_index(self@, k, i as int);
                }
                self.entries.remove(i);
            },
            None => {
                proof {
                    lemma_sremove_absent(self@, k);
                }
            },
        }
    }
}

/// The audit trail: a (consumer, nonce) pair mapped to the executor of record.
#[derive(Clone, Debug)]
pub struct ExecutorLog {
    pub entries: Vec<((Address, u64), Address)>,
}

impl View for ExecutorLog {
    type V = Seq<((Address, u64), Address)>;

    open spec fn view(&self) -> Seq<((Address, u64), Address)> {
        self.entries@
    }
}

impl ExecutorLog {
    pub fn new() -> (r: ExecutorLog)
        ensures
            r@ == Seq::<((Address, u64), Address)>::empty(),
    {
        ExecutorLog { entries: Vec::new() }
    }

    pub fn len(&self) -> (r: usize)
        ensures
            r == self@.len(),
    {
        self.entries.len()
    }

    fn index_of(&self, consumer: Address, nonce: u64) -> (r: Option<usize>)
        ensures
            match r {
                Some(i) => i < self@.len() && self@[i as int].0 == (consumer, nonce)
                    && forall|j: int| 0 <= j < i ==> self@[j].0 != (consumer, nonce),
                None => forall|j: int| 0 <= j < self@.len() ==> self@[j].0 != (consumer, nonce),
            },
    {
        let n = self.entries.len();
        let mut i: usize = 0;
        while i < n
            invariant
                i <= n,
                n == self@.len(),
                forall|j: int| 0 <= j < i ==> self@[j].0 != (consumer, nonce),
            decreases n - i,
        {
            if self.entries[i].0.0 == consumer && self.entries[i].0.1 == nonce {
                return Some(i);
            }
            i += 1;
        }
        None
    }

    pub fn get(&self, consumer: Address, nonce: u64) -> (r: Option<Address>)
        ensures
            r == slookup(self@, (consumer, nonce)),
    {
        match self.index_of(consumer, nonce) {
            Some(i) => {
                proof {
                    lemma_slookup_at_index(self@, (consumer, nonce), i as int);
                }
                Some(self.entries[i].1)
            },
            None => {
                proof {
                    lemma_slookup_none_when_absent(self@, (consumer, nonce));
                }
                None
            },
        }
    }

    pub fn insert(&mut self, consumer: Address, nonce: u64, executor: Address)
        ensures
            final(self)@ == supsert(old(self)@, (consumer, nonce), executor),
    {
        match self.index_of(consumer, nonce) {
            Some(i) => {
                proof {
                    lemma_supsert_at_index(self@, (consumer, nonce), executor, i as int);
                }
                self.entries[i] = ((consumer, nonce), executor);
            },
            None => {
                proof {
                    lemma_supsert_absent(self@, (consumer, nonce), executor);
                }
                self.entries.push(((consumer, nonce), executor));
            },
        }
    }
}

} // verus!
