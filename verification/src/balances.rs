//! Amounts by asset. A table holds at most one entry per asset; what it holds
//! is stated over the sequence of its entries.

use vstd::prelude::*;
use crate::types::Address;

verus! {

/// One asset with the amount held of it.
#[derive(Debug)]
pub struct Holding {
    asset: Address,
    amount: u128,
}

/// Amounts by asset: a small table with at most one entry per asset, walked in
/// the order in which the assets were first entered.
#[derive(Debug)]
pub struct Balances {
    entries: Vec<Holding>,
}

/// No asset occurs twice.
pub open spec fn distinct_keys(s: Seq<(Seq<char>, u128)>) -> bool {
    forall|i: int, j: int| 0 <= i < j < s.len() ==> (#[trigger] s[i]).0 != (#[trigger] s[j]).0
}

pub open spec fn has_key(s: Seq<(Seq<char>, u128)>, key: Seq<char>) -> bool {
    exists|i: int| 0 <= i < s.len() && (#[trigger] s[i]).0 == key
}

pub open spec fn key_index(s: Seq<(Seq<char>, u128)>, key: Seq<char>) -> int {
    choose|i: int| 0 <= i < s.len() && (#[trigger] s[i]).0 == key
}

/// The amount entered for `key`, if there is an entry.
pub open spec fn lookup(s: Seq<(Seq<char>, u128)>, key: Seq<char>) -> Option<u128> {
    if has_key(s, key) {
        Some(s[key_index(s, key)].1)
    } else {
        None
    }
}

/// The amount entered for `key`, zero without an entry.
pub open spec fn amount_of(s: Seq<(Seq<char>, u128)>, key: Seq<char>) -> u128 {
    match lookup(s, key) {
        Some(a) => a,
        None => 0,
    }
}

/// The table with `amount` entered for `key`: in place where the key has an
/// entry, at the end where it has none.
pub open spec fn put(s: Seq<(Seq<char>, u128)>, key: Seq<char>, amount: u128) -> Seq<(Seq<char>, u128)> {
    if has_key(s, key) {
        s.update(key_index(s, key), (key, amount))
    } else {
        s.push((key, amount))
    }
}

/// The table without the entry of `key`.
pub open spec fn without(s: Seq<(Seq<char>, u128)>, key: Seq<char>) -> Seq<(Seq<char>, u128)> {
    if has_key(s, key) {
        s.remove(key_index(s, key))
    } else {
        s
    }
}

/// In a table without repeated keys, the index of a key is the only place
/// where the key stands.
pub proof fn lemma_key_index(s: Seq<(Seq<char>, u128)>, key: Seq<char>, i: int)
    requires
        distinct_keys(s),
        0 <= i < s.len(),
        s[i].0 == key,
    ensures
        has_key(s, key),
        key_index(s, key) == i,
        lookup(s, key) == Some(s[i].1),
{
    let c = key_index(s, key);
    assert(0 <= c < s.len() && s[c].0 == key);
    if c < i {
        assert(s[c].0 != s[i].0);
    } else if i < c {
        assert(s[i].0 != s[c].0);
    }
}

/// Entering an amount keeps the keys distinct, is read back under its key, and
/// leaves every other key as it was.
pub proof fn lemma_put(s: Seq<(Seq<char>, u128)>, key: Seq<char>, amount: u128, other: Seq<char>)
    requires
        distinct_keys(s),
    ensures
        distinct_keys(put(s, key, amount)),
        lookup(put(s, key, amount), key) == Some(amount),
        other != key ==> lookup(put(s, key, amount), other) == lookup(s, other),
{
    let t = put(s, key, amount);
    if has_key(s, key) {
        let i = key_index(s, key);
        assert(0 <= i < s.len() && s[i].0 == key);
        assert(t.len() == s.len());
        assert forall|a: int| 0 <= a < t.len() implies (#[trigger] t[a]).0 == s[a].0 by {}
        assert forall|a: int, b: int| 0 <= a < b < t.len() implies (#[trigger] t[a]).0 != (#[trigger] t[b]).0 by {
            assert(s[a].0 != s[b].0);
        }
        assert(t[i].0 == key);
        lemma_key_index(t, key, i);
        if other != key {
            if has_key(s, other) {
                let j = key_index(s, other);
                assert(0 <= j < s.len() && s[j].0 == other);
                assert(t[j] == s[j]);
                lemma_key_index(t, other, j);
            } else {
                if has_key(t, other) {
                    let j = key_index(t, other);
                    assert(0 <= j < t.len() && t[j].0 == other);
                    assert(s[j].0 == other);
                }
            }
        }
    } else {
        let n = s.len() as int;
        assert(t.len() == n + 1);
        assert forall|a: int, b: int| 0 <= a < b < t.len() implies (#[trigger] t[a]).0 != (#[trigger] t[b]).0 by {
            if b < n {
                assert(s[a].0 != s[b].0);
            } else {
                assert(t[a] == s[a]);
                if s[a].0 == key {
                    assert(has_key(s, key));
                }
            }
        }
        assert(t[n].0 == key);
        lemma_key_index(t, key, n);
        if other != key {
            if has_key(s, other) {
                let j = key_index(s, other);
                assert(0 <= j < s.len() && s[j].0 == other);
                assert(t[j] == s[j]);
                lemma_key_index(t, other, j);
            } else {
                if has_key(t, other) {
                    let j = key_index(t, other);
                    assert(0 <= j < t.len() && t[j].0 == other);
                    assert(j < n);
                    assert(s[j].0 == other);
                }
            }
        }
    }
}

/// Entering an amount is read back under its key and leaves the amount of
/// every other key as it was.
pub proof fn lemma_put_all(s: Seq<(Seq<char>, u128)>, key: Seq<char>, amount: u128)
    requires
        distinct_keys(s),
    ensures
        distinct_keys(put(s, key, amount)),
        amount_of(put(s, key, amount), key) == amount,
        forall|other: Seq<char>| other != key ==> #[trigger] lookup(put(s, key, amount), other) == lookup(s, other),
{
    lemma_put(s, key, amount, key);
    assert forall|other: Seq<char>| other != key implies #[trigger] lookup(put(s, key, amount), other) == lookup(
        s,
        other,
    ) by {
        lemma_put(s, key, amount, other);
    }
}

/// Removing a key keeps the keys distinct, leaves no entry under the key, and
/// leaves every other key as it was.
pub proof fn lemma_without(s: Seq<(Seq<char>, u128)>, key: Seq<char>, other: Seq<char>)
    requires
        distinct_keys(s),
    ensures
        distinct_keys(without(s, key)),
        lookup(without(s, key), key) == None::<u128>,
        other != key ==> lookup(without(s, key), other) == lookup(s, other),
{
    let t = without(s, key);
    if has_key(s, key) {
        let i = key_index(s, key);
        assert(0 <= i < s.len() && s[i].0 == key);
        assert(t.len() == s.len() - 1);
        assert forall|a: int| 0 <= a < t.len() implies #[trigger] t[a] == (if a < i { s[a] } else { s[a + 1] }) by {}
        assert forall|a: int, b: int| 0 <= a < b < t.len() implies (#[trigger] t[a]).0 != (#[trigger] t[b]).0 by {
            let a2 = if a < i { a } else { a + 1 };
            let b2 = if b < i { b } else { b + 1 };
            assert(s[a2].0 != s[b2].0);
        }
        if has_key(t, key) {
            let j = key_index(t, key);
            assert(0 <= j < t.len() && t[j].0 == key);
            let j2 = if j < i { j } else { j + 1 };
            assert(s[j2].0 == key);
            lemma_key_index(s, key, j2);
        }
        if other != key {
            if has_key(s, other) {
                let j = key_index(s, other);
                assert(0 <= j < s.len() && s[j].0 == other);
                let j2 = if j < i { j } else { j - 1 };
                assert(t[j2] == s[j]);
                lemma_key_index(t, other, j2);
            } else {
                if has_key(t, other) {
                    let j = key_index(t, other);
                    assert(0 <= j < t.len() && t[j].0 == other);
                    let j2 = if j < i { j } else { j + 1 };
                    assert(s[j2].0 == other);
                }
            }
        }
    }
}

impl View for Balances {
    type V = Seq<(Seq<char>, u128)>;

    closed spec fn view(&self) -> Seq<(Seq<char>, u128)> {
        Seq::new(self.entries@.len(), |i: int| (self.entries@[i].asset@, self.entries@[i].amount))
    }
}

impl Balances {
    /// No asset has two entries. Every table that this module hands out is so.
    pub open spec fn wf(&self) -> bool {
        distinct_keys(self@)
    }

    pub fn new() -> (r: Balances)
        ensures
            r.wf(),
            r@ == Seq::<(Seq<char>, u128)>::empty(),
    {
        let r = Balances { entries: Vec::new() };
        assert(r@ =~= Seq::<(Seq<char>, u128)>::empty());
        r
    }

    pub fn len(&self) -> (r: usize)
        ensures
            r == self@.len(),
    {
        self.entries.len()
    }

    /// The asset of the entry at `i`.
    pub fn asset_at(&self, i: usize) -> (r: &Address)
        requires
            i < self@.len(),
        ensures
            r@ == self@[i as int].0,
    {
        &self.entries[i].asset
    }

    /// The amount of the entry at `i`.
    pub fn amount_at(&self, i: usize) -> (r: u128)
        requires
            i < self@.len(),
        ensures
            r == self@[i as int].1,
    {
        self.entries[i].amount
    }

    fn find(&self, asset: &Address) -> (r: Option<usize>)
        ensures
            match r {
                Some(i) => i < self@.len() && self@[i as int].0 == asset@,
                None => !has_key(self@, asset@),
            },
    {
        let mut i: usize = 0;
        while i < self.entries.len()
            invariant
                i <= self.entries.len(),
                forall|j: int| 0 <= j < i ==> (#[trigger] self@[j]).0 != asset@,
            decreases self.entries.len() - i,
        {
            if self.entries[i].asset.same(asset) {
                return Some(i);
            }
            i += 1;
        }
        None
    }

    /// The amount entered for `asset`, if there is an entry.
    pub fn get(&self, asset: &Address) -> (r: Option<u128>)
        requires
            self.wf(),
        ensures
            r == lookup(self@, asset@),
    {
        match self.find(asset) {
            Some(i) => {
                proof {
                    lemma_key_index(self@, asset@, i as int);
                }
                Some(self.entries[i].amount)
            },
            None => None,
        }
    }

    /// Enters `amount` for `asset`, in place of an earlier amount if there is one.
    pub fn set(&mut self, asset: &Address, amount: u128)
        requires
            old(self).wf(),
        ensures
            final(self).wf(),
            final(self)@ == put(old(self)@, asset@, amount),
    {
        proof {
            lemma_put(self@, asset@, amount, asset@);
        }
        match self.find(asset) {
            Some(i) => {
                proof {
                    lemma_key_index(self@, asset@, i as int);
                }
                self.entries.set(i, Holding { asset: asset.clone(), amount });
                assert(self@ =~= put(old(self)@, asset@, amount));
            },
            None => {
                self.entries.push(Holding { asset: asset.clone(), amount });
                assert(self@ =~= put(old(self)@, asset@, amount));
            },
        }
    }

    /// Takes the entry of `asset` out, if there is one.
    pub fn remove(&mut self, asset: &Address)
        requires
            old(self).wf(),
        ensures
            final(self).wf(),
            final(self)@ == without(old(self)@, asset@),
    {
        proof {
            lemma_without(self@, asset@, asset@);
        }
        match self.find(asset) {
            Some(i) => {
                proof {
                    lemma_key_index(self@, asset@, i as int);
                }
                self.entries.remove(i);
                assert(self@ =~= without(old(self)@, asset@));
            },
            None => {},
        }
    }
}

} // verus!
