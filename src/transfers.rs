//! The in-memory transfers of one transparent address within a
//! non-finalized chain: a running balance change, the transactions that
//! touched the address, and the outputs it received and spent.
use vstd::prelude::*;

use crate::balance::MAX_MONEY;
use crate::location::{Height, OutputLocation, TransactionLocation};
use crate::output::TransparentOutput;

verus! {

/// Keys that are kept in chain order, through an integer that sorts as they do.
pub trait ChainOrdered: Copy + Sized {
    /// The integer whose order is the chain order of keys.
    spec fn chain_key(self) -> int;

    /// Computes the key's integer.
    fn key(&self) -> (r: u128)
        ensures
            r == self.chain_key(),
    ;

    /// Distinct keys have distinct integers.
    proof fn lemma_chain_key_injective(a: Self, b: Self)
        ensures
            a.chain_key() == b.chain_key() ==> a == b,
    ;
}

impl ChainOrdered for TransactionLocation {
    open spec fn chain_key(self) -> int {
        self.height.0 as int * 0x1_0000 + self.index.0 as int
    }

    fn key(&self) -> (r: u128) {
        self.height.0 as u128 * 0x1_0000 + self.index.0 as u128
    }

    proof fn lemma_chain_key_injective(a: Self, b: Self) {
        if a.chain_key() == b.chain_key() {
            crate::bytes::lemma_value_split(
                a.height.0 as nat,
                a.index.0 as nat,
                b.height.0 as nat,
                b.index.0 as nat,
                0x1_0000,
            );
        }
    }
}

impl ChainOrdered for OutputLocation {
    open spec fn chain_key(self) -> int {
        self.transaction_location.chain_key() * 0x1_0000_0000 + self.output_index.0 as int
    }

    fn key(&self) -> (r: u128) {
        let t = self.transaction_location.key();
        t * 0x1_0000_0000 + self.output_index.0 as u128
    }

    proof fn lemma_chain_key_injective(a: Self, b: Self) {
        if a.chain_key() == b.chain_key() {
            crate::bytes::lemma_value_split(
                a.transaction_location.chain_key() as nat,
                a.output_index.0 as nat,
                b.transaction_location.chain_key() as nat,
                b.output_index.0 as nat,
                0x1_0000_0000,
            );
            TransactionLocation::lemma_chain_key_injective(
                a.transaction_location,
                b.transaction_location,
            );
        }
    }
}

/// Whether some entry has this key.
pub open spec fn has_key<K, V>(s: Seq<(K, V)>, k: K) -> bool {
    exists|i: int| 0 <= i < s.len() && s[i].0 == k
}

/// The map that a sequence of entries with distinct keys holds.
pub open spec fn entries_map<K, V>(s: Seq<(K, V)>) -> Map<K, V> {
    Map::new(|k: K| has_key(s, k), |k: K| s[choose|i: int| 0 <= i < s.len() && s[i].0 == k].1)
}

/// Whether the entries are in strictly increasing chain order of their keys.
pub open spec fn sorted_by_key<K: ChainOrdered, V>(s: Seq<(K, V)>) -> bool {
    forall|i: int, j: int| 0 <= i < j < s.len() ==> s[i].0.chain_key() < s[j].0.chain_key()
}

proof fn lemma_entries_map_at<K: ChainOrdered, V>(s: Seq<(K, V)>, i: int)
    requires
        sorted_by_key(s),
        0 <= i < s.len(),
    ensures
        entries_map(s).contains_key(s[i].0),
        entries_map(s)[s[i].0] == s[i].1,
{
    let k = s[i].0;
    assert(has_key(s, k));
    let j = choose|j: int| 0 <= j < s.len() && s[j].0 == k;
    if j != i {
        if j < i {
            assert(s[j].0.chain_key() < s[i].0.chain_key());
        } else {
            assert(s[i].0.chain_key() < s[j].0.chain_key());
        }
    }
}

/// Puts an entry into a sorted sequence of entries, in its place in chain
/// order, replacing the entry with the same key if there is one.
pub fn insert_sorted<K: ChainOrdered, V>(entries: &mut Vec<(K, V)>, key: K, value: V)
    requires
        sorted_by_key(old(entries)@),
    ensures
        sorted_by_key(final(entries)@),
        entries_map(final(entries)@) == entries_map(old(entries)@).insert(key, value),
{
    let ghost s = entries@;
    let k = key.key();
    let mut p: usize = 0;
    loop
        invariant
            entries@ == s,
            sorted_by_key(s),
            p <= s.len(),
            forall|i: int| 0 <= i < p ==> s[i].0.chain_key() < k,
        ensures
            p <= s.len(),
            p == s.len() || s[p as int].0.chain_key() >= k,
            forall|i: int| 0 <= i < p ==> s[i].0.chain_key() < k,
        decreases s.len() - p,
    {
        if p == entries.len() {
            break;
        }
        let c = entries[p].0.key();
        if c >= k {
            break;
        }
        p = p + 1;
    }
    let replace = p < entries.len() && entries[p].0.key() == k;
    if replace {
        proof {
            K::lemma_chain_key_injective(s[p as int].0, key);
        }
        entries.set(p, (key, value));
    } else {
        entries.insert(p, (key, value));
    }
    let ghost t = entries@;
    proof {
        assert(sorted_by_key(t)) by {
            assert forall|i: int, j: int| 0 <= i < j < t.len() implies t[i].0.chain_key()
                < t[j].0.chain_key() by {
                if !replace {
                    if p < s.len() {
                        assert(s[p as int].0.chain_key() > k);
                    }
                }
            }
        }
        let old_map = entries_map(s);
        let new_map = entries_map(t);
        let want = old_map.insert(key, value);
        // Where an entry of the new sequence came from in the old one.
        assert forall|i: int| 0 <= i < t.len() && t[i].0 != key implies #[trigger] t[i]
            == s[if replace || i < p {
            i
        } else {
            i - 1
        }] by {}
        assert forall|k2: K| new_map.contains_key(k2) <==> want.contains_key(k2) by {
            if new_map.contains_key(k2) && k2 != key {
                let i = choose|i: int| 0 <= i < t.len() && t[i].0 == k2;
                let j = if replace || i < p {
                    i
                } else {
                    i - 1
                };
                assert(s[j].0 == k2);
            }
            if want.contains_key(k2) {
                if k2 == key {
                    assert(t[p as int].0 == key);
                } else {
                    let j = choose|j: int| 0 <= j < s.len() && s[j].0 == k2;
                    let i = if replace || j < p {
                        j
                    } else {
                        j + 1
                    };
                    if replace && j == p {
                        K::lemma_chain_key_injective(s[p as int].0, key);
                    }
                    assert(t[i].0 == k2);
                }
            }
        }
        assert forall|k2: K| #[trigger] new_map.contains_key(k2) implies new_map[k2] == want[k2] by {
            let i = choose|i: int| 0 <= i < t.len() && t[i].0 == k2;
            lemma_entries_map_at(t, i);
            if k2 == key {
                lemma_entries_map_at(t, p as int);
            } else {
                let j = if replace || i < p {
                    i
                } else {
                    i - 1
                };
                lemma_entries_map_at(s, j);
            }
        }
        assert(new_map =~= want);
    }
}

/// An unspent output, with the height of its block and whether a coinbase
/// transaction created it.
#[derive(Clone, Debug, PartialEq, Eq)]
pub struct Utxo {
    /// The output.
    pub output: TransparentOutput,
    /// The height of the block that created the output.
    pub height: Height,
    /// Whether the output was created by a coinbase transaction.
    pub from_coinbase: bool,
}

/// A balance change that would leave the money range.
#[derive(Clone, Copy, Debug, PartialEq, Eq, Structural)]
pub enum BalanceError {
    /// The balance change would pass `MAX_MONEY` in either direction.
    OutOfRange,
}

/// The transfers of one transparent address in a non-finalized chain.
#[derive(Clone, Debug)]
pub struct TransparentTransfers {
    /// The change in the address's balance over this part of the chain;
    /// it may be negative.
    balance: i64,
    /// The transactions that spent or received outputs of the address, in chain order.
    tx_ids: Vec<(TransactionLocation, [u8; 32])>,
    /// The outputs received by the address, in chain order.
    created_utxos: Vec<(OutputLocation, Utxo)>,
    /// The outputs spent by the address, in chain order.
    spent_utxos: Vec<(OutputLocation, ())>,
}

impl TransparentTransfers {
    /// The balance change, in zatoshis.
    pub closed spec fn balance_spec(&self) -> int {
        self.balance as int
    }

    /// The transactions, by location.
    pub closed spec fn tx_ids_spec(&self) -> Map<TransactionLocation, [u8; 32]> {
        entries_map(self.tx_ids@)
    }

    /// The received outputs, by location.
    pub closed spec fn created_spec(&self) -> Map<OutputLocation, Utxo> {
        entries_map(self.created_utxos@)
    }

    /// The locations of the spent outputs.
    pub closed spec fn spent_spec(&self) -> Set<OutputLocation> {
        entries_map(self.spent_utxos@).dom()
    }

    /// The balance stays in the money range and every collection is in chain order.
    pub closed spec fn wf(&self) -> bool {
        &&& -MAX_MONEY <= self.balance <= MAX_MONEY
        &&& sorted_by_key(self.tx_ids@)
        &&& sorted_by_key(self.created_utxos@)
        &&& sorted_by_key(self.spent_utxos@)
    }

    /// No transfers yet.
    pub fn new() -> (r: TransparentTransfers)
        ensures
            r.wf(),
            r.balance_spec() == 0,
            r.tx_ids_spec() == Map::<TransactionLocation, [u8; 32]>::empty(),
            r.created_spec() == Map::<OutputLocation, Utxo>::empty(),
            r.spent_spec() == Set::<OutputLocation>::empty(),
    {
        let r = TransparentTransfers {
            balance: 0,
            tx_ids: Vec::new(),
            created_utxos: Vec::new(),
            spent_utxos: Vec::new(),
        };
        proof {
            assert(r.tx_ids_spec() =~= Map::<TransactionLocation, [u8; 32]>::empty());
            assert(r.created_spec() =~= Map::<OutputLocation, Utxo>::empty());
            assert(r.spent_spec() =~= Set::<OutputLocation>::empty());
        }
        r
    }

    /// Records a transaction that touched the address.
    pub fn note_tx(&mut self, location: TransactionLocation, hash: [u8; 32])
        requires
            old(self).wf(),
        ensures
            final(self).wf(),
            final(self).tx_ids_spec() == old(self).tx_ids_spec().insert(location, hash),
            final(self).balance_spec() == old(self).balance_spec(),
            final(self).created_spec() == old(self).created_spec(),
            final(self).spent_spec() == old(self).spent_spec(),
    {
        insert_sorted(&mut self.tx_ids, location, hash);
    }

    /// Records an output received by the address, and adds its value to the
    /// balance. A balance change above `MAX_MONEY` is refused, and then
    /// nothing changes.
    pub fn credit(&mut self, location: OutputLocation, utxo: Utxo) -> (r: Result<(), BalanceError>)
        requires
            old(self).wf(),
        ensures
            final(self).wf(),
            r is Ok <==> old(self).balance_spec() + utxo.output.value <= MAX_MONEY,
            r is Ok ==> final(self).balance_spec() == old(self).balance_spec() + utxo.output.value,
            r is Ok ==> final(self).created_spec() == old(self).created_spec().insert(
                location,
                utxo,
            ),
            r is Err ==> *final(self) == *old(self),
            final(self).tx_ids_spec() == old(self).tx_ids_spec(),
            final(self).spent_spec() == old(self).spent_spec(),
    {
        let balance = self.balance as i128 + utxo.output.value as i128;
        if balance > MAX_MONEY as i128 {
            return Err(BalanceError::OutOfRange);
        }
        self.balance = balance as i64;
        insert_sorted(&mut self.created_utxos, location, utxo);
        Ok(())
    }

    /// Records an output of the address that was spent, and takes its value
    /// from the balance. A balance change below `-MAX_MONEY` is refused, and
    /// then nothing changes.
    pub fn debit(&mut self, location: OutputLocation, value: u64) -> (r: Result<(), BalanceError>)
        requires
            old(self).wf(),
        ensures
            final(self).wf(),
            r is Ok <==> old(self).balance_spec() - value >= -MAX_MONEY,
            r is Ok ==> final(self).balance_spec() == old(self).balance_spec() - value,
            r is Ok ==> final(self).spent_spec() == old(self).spent_spec().insert(location),
            r is Err ==> *final(self) == *old(self),
            final(self).tx_ids_spec() == old(self).tx_ids_spec(),
            final(self).created_spec() == old(self).created_spec(),
    {
        let balance = self.balance as i128 - value as i128;
        if balance < -(MAX_MONEY as i128) {
            return Err(BalanceError::OutOfRange);
        }
        self.balance = balance as i64;
        let ghost before = entries_map(self.spent_utxos@);
        insert_sorted(&mut self.spent_utxos, location, ());
        proof {
            assert(entries_map(self.spent_utxos@).dom() =~= before.dom().insert(location));
        }
        Ok(())
    }

    /// Returns the balance change, in zatoshis.
    pub fn balance(&self) -> (r: i64)
        ensures
            r == self.balance_spec(),
    {
        self.balance
    }

    /// Returns the transactions that touched the address, in chain order.
    pub fn tx_ids(&self) -> (r: Vec<(TransactionLocation, [u8; 32])>)
        requires
            self.wf(),
        ensures
            sorted_by_key(r@),
            entries_map(r@) == self.tx_ids_spec(),
    {
        let mut r: Vec<(TransactionLocation, [u8; 32])> = Vec::new();
        let mut i: usize = 0;
        while i < self.tx_ids.len()
            invariant
                i <= self.tx_ids@.len(),
                r@ == self.tx_ids@.subrange(0, i as int),
            decreases self.tx_ids@.len() - i,
        {
            r.push(self.tx_ids[i]);
            i = i + 1;
            proof {
                assert(r@ =~= self.tx_ids@.subrange(0, i as int));
            }
        }
        proof {
            assert(r@ =~= self.tx_ids@);
        }
        r
    }

    /// Returns the locations of the outputs the address received, in chain order.
    pub fn created_locations(&self) -> (r: Vec<OutputLocation>)
        requires
            self.wf(),
        ensures
            r@.len() == self.created_spec().len(),
            forall|i: int, j: int| 0 <= i < j < r@.len() ==> r@[i].chain_key() < r@[j].chain_key(),
            forall|l: OutputLocation| self.created_spec().contains_key(l) <==> r@.contains(l),
    {
        let mut r: Vec<OutputLocation> = Vec::new();
        let mut i: usize = 0;
        while i < self.created_utxos.len()
            invariant
                i <= self.created_utxos@.len(),
                r@ == self.created_utxos@.subrange(0, i as int).map_values(
                    |e: (OutputLocation, Utxo)| e.0,
                ),
            decreases self.created_utxos@.len() - i,
        {
            r.push(self.created_utxos[i].0);
            i = i + 1;
            proof {
                assert(r@ =~= self.created_utxos@.subrange(0, i as int).map_values(
                    |e: (OutputLocation, Utxo)| e.0,
                ));
            }
        }
        proof {
            let s = self.created_utxos@;
            assert(s.subrange(0, s.len() as int) =~= s);
            assert forall|l: OutputLocation| self.created_spec().contains_key(l) <==> r@.contains(
                l,
            ) by {
                if r@.contains(l) {
                    let i = choose|i: int| 0 <= i < r@.len() && r@[i] == l;
                    assert(s[i].0 == l);
                }
                if self.created_spec().contains_key(l) {
                    let i = choose|i: int| 0 <= i < s.len() && s[i].0 == l;
                    assert(r@[i] == l);
                }
            }
            lemma_sorted_keys_len(s);
        }
        r
    }

    /// Whether the address received the output at this location.
    pub fn created_contains(&self, location: OutputLocation) -> (r: bool)
        requires
            self.wf(),
        ensures
            r == self.created_spec().contains_key(location),
    {
        let k = location.key();
        let mut i: usize = 0;
        while i < self.created_utxos.len()
            invariant
                i <= self.created_utxos@.len(),
                k == location.chain_key(),
                forall|j: int| 0 <= j < i ==> self.created_utxos@[j].0 != location,
            decreases self.created_utxos@.len() - i,
        {
            let c = self.created_utxos[i].0.key();
            if c == k {
                proof {
                    OutputLocation::lemma_chain_key_injective(self.created_utxos@[i as int].0, location);
                }
                return true;
            }
            i = i + 1;
        }
        false
    }

    /// Whether the address spent the output at this location.
    pub fn spent_contains(&self, location: OutputLocation) -> (r: bool)
        requires
            self.wf(),
        ensures
            r == self.spent_spec().contains(location),
    {
        let k = location.key();
        let mut i: usize = 0;
        while i < self.spent_utxos.len()
            invariant
                i <= self.spent_utxos@.len(),
                k == location.chain_key(),
                forall|j: int| 0 <= j < i ==> self.spent_utxos@[j].0 != location,
            decreases self.spent_utxos@.len() - i,
        {
            let c = self.spent_utxos[i].0.key();
            if c == k {
                proof {
                    OutputLocation::lemma_chain_key_injective(self.spent_utxos@[i as int].0, location);
                }
                return true;
            }
            i = i + 1;
        }
        false
    }
}

/// A sorted sequence of entries holds as many keys as entries.
proof fn lemma_sorted_keys_len<K: ChainOrdered, V>(s: Seq<(K, V)>)
    requires
        sorted_by_key(s),
    ensures
        entries_map(s).len() == s.len(),
        entries_map(s).dom().finite(),
    decreases s.len(),
{
    let m = entries_map(s);
    if s.len() == 0 {
        assert(m.dom() =~= Set::<K>::empty());
    } else {
        let t = s.drop_last();
        lemma_sorted_keys_len(t);
        let last = s.last().0;
        assert(!entries_map(t).contains_key(last)) by {
            if has_key(t, last) {
                let i = choose|i: int| 0 <= i < t.len() && t[i].0 == last;
                assert(s[i].0.chain_key() < s[s.len() - 1].0.chain_key());
            }
        }
        assert(m.dom() =~= entries_map(t).dom().insert(last)) by {
            assert forall|k: K| m.dom().contains(k) implies entries_map(t).dom().insert(last).contains(k) by {
                let i = choose|i: int| 0 <= i < s.len() && s[i].0 == k;
                if i < s.len() - 1 {
                    assert(t[i].0 == k);
                }
            }
            assert forall|k: K| entries_map(t).dom().insert(last).contains(k) implies m.dom().contains(k) by {
                if k != last {
                    let i = choose|i: int| 0 <= i < t.len() && t[i].0 == k;
                    assert(s[i].0 == k);
                } else {
                    assert(s[s.len() - 1].0 == k);
                }
            }
        }
    }
}

} // verus!
