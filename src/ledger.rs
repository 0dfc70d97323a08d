//! The ledger: tables from addresses to records, to the deposits that back
//! them, and from parties to their balances; each address holds at most one
//! entry per table.
use vstd::prelude::*;
use crate::address::{Key, keys_equal};
use crate::records::Record;

verus! {

/// A value together with the address it is kept at.
pub struct Entry<V> {
    pub address: Key,
    pub value: V,
}

/// Whether some entry of `s` is kept at `a`.
pub open spec fn has_address<V>(s: Seq<Entry<V>>, a: Seq<u8>) -> bool {
    exists|i: int| 0 <= i < s.len() && (#[trigger] s[i]).address@ == a
}

/// No two entries of `s` share an address.
pub open spec fn unique_addresses<V>(s: Seq<Entry<V>>) -> bool {
    forall|i: int, j: int|
        0 <= i < s.len() && 0 <= j < s.len() && i != j ==> (#[trigger] s[i]).address@ != (#[trigger] s[j]).address@
}

/// The map from address to value that the entries of `s` describe.
pub open spec fn values_of<V>(s: Seq<Entry<V>>) -> Map<Seq<u8>, V> {
    Map::new(
        |a: Seq<u8>| has_address(s, a),
        |a: Seq<u8>| s[choose|i: int| 0 <= i < s.len() && (#[trigger] s[i]).address@ == a].value,
    )
}

proof fn lemma_value_at<V>(s: Seq<Entry<V>>, i: int)
    requires
        unique_addresses(s),
        0 <= i < s.len(),
    ensures
        values_of(s).contains_key(s[i].address@),
        values_of(s)[s[i].address@] == s[i].value,
{
    let a = s[i].address@;
    assert(has_address(s, a));
    let j = choose|j: int| 0 <= j < s.len() && (#[trigger] s[j]).address@ == a;
    assert(j == i);
}

proof fn lemma_push<V>(s: Seq<Entry<V>>, acc: Entry<V>)
    requires
        unique_addresses(s),
        !has_address(s, acc.address@),
    ensures
        unique_addresses(s.push(acc)),
        values_of(s.push(acc)) == values_of(s).insert(acc.address@, acc.value),
{
    let t = s.push(acc);
    assert forall|i: int, j: int|
        0 <= i < t.len() && 0 <= j < t.len() && i != j implies (#[trigger] t[i]).address@ != (#[trigger] t[j]).address@ by {
        if i < s.len() && j < s.len() {
            assert(t[i] == s[i] && t[j] == s[j]);
        } else if i < s.len() {
            assert(t[i] == s[i]);
        } else {
            assert(t[j] == s[j]);
        }
    }
    let m = values_of(s).insert(acc.address@, acc.value);
    assert forall|a: Seq<u8>| #[trigger] values_of(t).contains_key(a) <==> m.contains_key(a) by {
        if has_address(s, a) {
            let i = choose|i: int| 0 <= i < s.len() && (#[trigger] s[i]).address@ == a;
            assert(t[i] == s[i]);
        }
        if has_address(t, a) && a != acc.address@ {
            let i = choose|i: int| 0 <= i < t.len() && (#[trigger] t[i]).address@ == a;
            assert(i < s.len());
            assert(t[i] == s[i]);
        }
        if a == acc.address@ {
            assert(t[s.len() as int] == acc);
        }
    }
    assert forall|a: Seq<u8>| #[trigger] values_of(t).contains_key(a) implies values_of(t)[a] == m[a] by {
        let i = choose|i: int| 0 <= i < t.len() && (#[trigger] t[i]).address@ == a;
        lemma_value_at(t, i);
        if i < s.len() {
            assert(t[i] == s[i]);
            lemma_value_at(s, i);
        }
    }
    assert(values_of(t) =~= m);
}

proof fn lemma_remove<V>(s: Seq<Entry<V>>, k: int)
    requires
        unique_addresses(s),
        0 <= k < s.len(),
    ensures
        unique_addresses(s.remove(k)),
        values_of(s.remove(k)) == values_of(s).remove(s[k].address@),
{
    let t = s.remove(k);
    let gone = s[k].address@;
    assert forall|i: int| 0 <= i < t.len() implies #[trigger] t[i] == s[if i < k { i } else { i + 1 }] by {}
    assert forall|i: int, j: int|
        0 <= i < t.len() && 0 <= j < t.len() && i != j implies (#[trigger] t[i]).address@ != (#[trigger] t[j]).address@ by {
        assert(t[i] == s[if i < k { i } else { i + 1 }]);
        assert(t[j] == s[if j < k { j } else { j + 1 }]);
    }
    let m = values_of(s).remove(gone);
    assert forall|a: Seq<u8>| #[trigger] values_of(t).contains_key(a) <==> m.contains_key(a) by {
        if has_address(t, a) {
            let i = choose|i: int| 0 <= i < t.len() && (#[trigger] t[i]).address@ == a;
            let si = if i < k { i } else { i + 1 };
            assert(t[i] == s[si]);
            assert(si != k);
        }
        if has_address(s, a) && a != gone {
            let i = choose|i: int| 0 <= i < s.len() && (#[trigger] s[i]).address@ == a;
            assert(i != k);
            let ti = if i < k { i } else { i - 1 };
            assert(t[ti] == s[i]);
        }
    }
    assert forall|a: Seq<u8>| #[trigger] values_of(t).contains_key(a) implies values_of(t)[a] == m[a] by {
        let i = choose|i: int| 0 <= i < t.len() && (#[trigger] t[i]).address@ == a;
        lemma_value_at(t, i);
        let si = if i < k { i } else { i + 1 };
        assert(t[i] == s[si]);
        lemma_value_at(s, si);
    }
    assert(values_of(t) =~= m);
}

fn find<V>(v: &Vec<Entry<V>>, address: &Key) -> (r: Option<usize>)
    ensures
        match r {
            Some(i) => i < v@.len() && v@[i as int].address@ == address@,
            None => !has_address(v@, address@),
        },
{
    let mut i: usize = 0;
    while i < v.len()
        invariant
            i <= v@.len(),
            forall|j: int| 0 <= j < i ==> (#[trigger] v@[j]).address@ != address@,
        decreases v@.len() - i,
    {
        if keys_equal(&v[i].address, address) {
            return Some(i);
        }
        i = i + 1;
    }
    None
}

fn table_get<'a, V>(v: &'a Vec<Entry<V>>, address: &Key) -> (r: Option<&'a V>)
    requires
        unique_addresses(v@),
    ensures
        match r {
            Some(x) => values_of(v@).contains_key(address@) && *x == values_of(v@)[address@],
            None => !values_of(v@).contains_key(address@),
        },
{
    match find(v, address) {
        Some(i) => {
            proof {
                lemma_value_at(v@, i as int);
            }
            Some(&v[i].value)
        },
        None => None,
    }
}

fn table_insert<V>(v: &mut Vec<Entry<V>>, address: Key, value: V)
    requires
        unique_addresses(old(v)@),
        !values_of(old(v)@).contains_key(address@),
    ensures
        unique_addresses(final(v)@),
        values_of(final(v)@) == values_of(old(v)@).insert(address@, value),
{
    let e = Entry { address, value };
    proof {
        lemma_push(v@, e);
    }
    v.push(e);
}

fn table_remove<V>(v: &mut Vec<Entry<V>>, address: &Key) -> (r: V)
    requires
        unique_addresses(old(v)@),
        values_of(old(v)@).contains_key(address@),
    ensures
        unique_addresses(final(v)@),
        r == values_of(old(v)@)[address@],
        values_of(final(v)@) == values_of(old(v)@).remove(address@),
{
    let i = match find(v, address) {
        Some(i) => i,
        None => {
            assert(false);
            0
        },
    };
    proof {
        lemma_value_at(v@, i as int);
        lemma_remove(v@, i as int);
    }
    let e = v.remove(i);
    e.value
}

/// The amount `m` holds for `k`, none counting as zero.
pub open spec fn amount_of(m: Map<Seq<u8>, u64>, k: Seq<u8>) -> u64 {
    if m.contains_key(k) {
        m[k]
    } else {
        0
    }
}

/// The records of one program, each at its derived address, with the
/// deposits that back them and the balances of the parties that pay.
pub struct Ledger {
    program_id: Key,
    accounts: Vec<Entry<Record>>,
    deposits: Vec<Entry<u64>>,
    balances: Vec<Entry<u64>>,
}

impl Ledger {
    /// The records, by address.
    pub closed spec fn records(&self) -> Map<Seq<u8>, Record> {
        values_of(self.accounts@)
    }

    /// The storage deposit held by each record that has one, by address.
    pub closed spec fn deposits(&self) -> Map<Seq<u8>, u64> {
        values_of(self.deposits@)
    }

    /// The balance of each party that has one, by key.
    pub closed spec fn balances(&self) -> Map<Seq<u8>, u64> {
        values_of(self.balances@)
    }

    /// The program whose addresses this ledger holds.
    pub closed spec fn id(&self) -> Key {
        self.program_id
    }

    /// The program whose addresses this ledger holds.
    pub fn program_id(&self) -> (r: Key)
        ensures
            r == self.id(),
    {
        self.program_id
    }

    /// Each table holds at most one entry per address.
    pub closed spec fn wf(&self) -> bool {
        &&& unique_addresses(self.accounts@)
        &&& unique_addresses(self.deposits@)
        &&& unique_addresses(self.balances@)
    }

    /// An empty ledger of the program `program_id`.
    pub fn new(program_id: Key) -> (r: Ledger)
        ensures
            r.wf(),
            r.id() == program_id,
            r.records() == Map::<Seq<u8>, Record>::empty(),
            r.deposits() == Map::<Seq<u8>, u64>::empty(),
            r.balances() == Map::<Seq<u8>, u64>::empty(),
    {
        let r = Ledger { program_id, accounts: Vec::new(), deposits: Vec::new(), balances: Vec::new() };
        assert(r.records() =~= Map::<Seq<u8>, Record>::empty());
        assert(r.deposits() =~= Map::<Seq<u8>, u64>::empty());
        assert(r.balances() =~= Map::<Seq<u8>, u64>::empty());
        r
    }

    /// The record at `address`, if there is one.
    pub fn get(&self, address: &Key) -> (r: Option<&Record>)
        requires
            self.wf(),
        ensures
            match r {
                Some(x) => self.records().contains_key(address@) && *x == self.records()[address@],
                None => !self.records().contains_key(address@),
            },
    {
        table_get(&self.accounts, address)
    }

    /// Whether a record lives at `address`.
    pub fn contains(&self, address: &Key) -> (r: bool)
        requires
            self.wf(),
        ensures
            r == self.records().contains_key(address@),
    {
        self.get(address).is_some()
    }

    /// Puts `record` at the free address `address`.
    pub fn insert(&mut self, address: Key, record: Record)
        requires
            old(self).wf(),
            !old(self).records().contains_key(address@),
        ensures
            final(self).wf(),
            final(self).id() == old(self).id(),
            final(self).records() == old(self).records().insert(address@, record),
            final(self).deposits() == old(self).deposits(),
            final(self).balances() == old(self).balances(),
    {
        table_insert(&mut self.accounts, address, record);
    }

    /// Takes the record at `address` out of the ledger.
    pub fn remove(&mut self, address: &Key) -> (r: Record)
        requires
            old(self).wf(),
            old(self).records().contains_key(address@),
        ensures
            final(self).wf(),
            final(self).id() == old(self).id(),
            r == old(self).records()[address@],
            final(self).records() == old(self).records().remove(address@),
            final(self).deposits() == old(self).deposits(),
            final(self).balances() == old(self).balances(),
    {
        table_remove(&mut self.accounts, address)
    }

    /// The deposit held at `address`; none counts as zero.
    pub fn deposit(&self, address: &Key) -> (r: u64)
        requires
            self.wf(),
        ensures
            r == amount_of(self.deposits(), address@),
    {
        match table_get(&self.deposits, address) {
            Some(x) => *x,
            None => 0,
        }
    }

    /// The balance of `party`; none counts as zero.
    pub fn balance(&self, party: &Key) -> (r: u64)
        requires
            self.wf(),
        ensures
            r == amount_of(self.balances(), party@),
    {
        match table_get(&self.balances, party) {
            Some(x) => *x,
            None => 0,
        }
    }

    /// Sets the balance of `party` to `amount`.
    pub fn set_balance(&mut self, party: Key, amount: u64)
        requires
            old(self).wf(),
        ensures
            final(self).wf(),
            final(self).id() == old(self).id(),
            final(self).records() == old(self).records(),
            final(self).deposits() == old(self).deposits(),
            final(self).balances() == old(self).balances().insert(party@, amount),
    {
        if table_get(&self.balances, &party).is_some() {
            let _ = table_remove(&mut self.balances, &party);
        }
        table_insert(&mut self.balances, party, amount);
        assert(values_of(self.balances@) =~= values_of(old(self).balances@).insert(party@, amount));
    }

    /// Sets the deposit held at `address` to `amount`.
    pub fn set_deposit(&mut self, address: Key, amount: u64)
        requires
            old(self).wf(),
        ensures
            final(self).wf(),
            final(self).id() == old(self).id(),
            final(self).records() == old(self).records(),
            final(self).balances() == old(self).balances(),
            final(self).deposits() == old(self).deposits().insert(address@, amount),
    {
        if table_get(&self.deposits, &address).is_some() {
            let _ = table_remove(&mut self.deposits, &address);
        }
        table_insert(&mut self.deposits, address, amount);
        assert(values_of(self.deposits@) =~= values_of(old(self).deposits@).insert(address@, amount));
    }

    /// Takes the deposit held at `address` out of the ledger; none counts as
    /// zero.
    pub fn take_deposit(&mut self, address: &Key) -> (r: u64)
        requires
            old(self).wf(),
        ensures
            final(self).wf(),
            final(self).id() == old(self).id(),
            final(self).records() == old(self).records(),
            final(self).balances() == old(self).balances(),
            r == amount_of(old(self).deposits(), address@),
            final(self).deposits() == old(self).deposits().remove(address@),
    {
        if table_get(&self.deposits, address).is_some() {
            table_remove(&mut self.deposits, address)
        } else {
            assert(values_of(self.deposits@).remove(address@) =~= values_of(self.deposits@));
            0
        }
    }
}

} // verus!
