//! The amounts held in escrow, by address.

use crate::game::address::Address;
use vstd::prelude::*;

verus! {

/// The number can be held as an amount.
pub open spec fn in_range(amount: int) -> bool {
    i128::MIN <= amount <= i128::MAX
}

/// What the address has in escrow; an address without an entry has nothing.
pub open spec fn balance_of(escrow: Map<Address, int>, who: Address) -> int {
    if escrow.contains_key(who) {
        escrow[who]
    } else {
        0
    }
}

/// The escrow after adding `amount`, which may be negative, for the address.
pub open spec fn adjusted(escrow: Map<Address, int>, who: Address, amount: int) -> Map<
    Address,
    int,
> {
    escrow.insert(who, balance_of(escrow, who) + amount)
}

/// Adding `amount` for the address gives an amount that can be held.
pub open spec fn adjustable(escrow: Map<Address, int>, who: Address, amount: int) -> bool {
    in_range(balance_of(escrow, who) + amount)
}

/// The amounts held in escrow.
#[derive(Debug)]
pub struct Escrow {
    entries: Vec<(Address, i128)>,
}

/// Index of the entry of the address.
spec fn index_of(entries: Seq<(Address, i128)>, who: Address) -> int {
    choose|i: int| 0 <= i < entries.len() && (#[trigger] entries[i]).0 == who
}

/// The address has an entry.
spec fn listed(entries: Seq<(Address, i128)>, who: Address) -> bool {
    exists|i: int| 0 <= i < entries.len() && (#[trigger] entries[i]).0 == who
}

/// No address has two entries.
spec fn entries_valid(entries: Seq<(Address, i128)>) -> bool {
    forall|i: int, j: int|
        0 <= i < j < entries.len() ==> (#[trigger] entries[i]).0 != (#[trigger] entries[j]).0
}

/// The entries as a map.
spec fn contents(entries: Seq<(Address, i128)>) -> Map<Address, int> {
    Map::new(
        |who: Address| listed(entries, who),
        |who: Address| entries[index_of(entries, who)].1 as int,
    )
}

impl View for Escrow {
    type V = Map<Address, int>;

    closed spec fn view(&self) -> Map<Address, int> {
        contents(self.entries@)
    }
}

proof fn lemma_at(entries: Seq<(Address, i128)>, i: int)
    requires
        entries_valid(entries),
        0 <= i < entries.len(),
    ensures
        listed(entries, entries[i].0),
        index_of(entries, entries[i].0) == i,
        contents(entries).contains_key(entries[i].0),
        contents(entries)[entries[i].0] == entries[i].1,
{
    assert(listed(entries, entries[i].0));
}

/// Changing the amount of an entry updates the map there.
proof fn lemma_update(entries: Seq<(Address, i128)>, i: int, amount: i128)
    requires
        entries_valid(entries),
        0 <= i < entries.len(),
    ensures
        entries_valid(entries.update(i, (entries[i].0, amount))),
        contents(entries.update(i, (entries[i].0, amount))) == contents(entries).insert(
            entries[i].0,
            amount as int,
        ),
{
    let updated = entries.update(i, (entries[i].0, amount));
    let expected = contents(entries).insert(entries[i].0, amount as int);
    assert(entries_valid(updated));
    assert forall|who: Address|
        contents(updated).contains_key(who) == expected.contains_key(who) by {
        if listed(updated, who) {
            let k = index_of(updated, who);
            assert(entries[k].0 == who);
        }
        if listed(entries, who) {
            let k = index_of(entries, who);
            assert(updated[k].0 == who);
        }
        lemma_at(updated, i);
    }
    assert forall|who: Address|
        contents(updated).contains_key(who) implies contents(updated)[who] == expected[who] by {
        let k = index_of(updated, who);
        lemma_at(updated, k);
        lemma_at(entries, k);
    }
    assert(contents(updated) =~= expected);
}

/// Appending the entry of a new address inserts it into the map.
proof fn lemma_push(entries: Seq<(Address, i128)>, who: Address, amount: i128)
    requires
        entries_valid(entries),
        !listed(entries, who),
    ensures
        entries_valid(entries.push((who, amount))),
        contents(entries.push((who, amount))) == contents(entries).insert(who, amount as int),
{
    let longer = entries.push((who, amount));
    let expected = contents(entries).insert(who, amount as int);
    assert(entries_valid(longer));
    lemma_at(longer, entries.len() as int);
    assert forall|other: Address|
        contents(longer).contains_key(other) == expected.contains_key(other) by {
        if listed(longer, other) {
            let k = index_of(longer, other);
            if k < entries.len() {
                assert(entries[k].0 == other);
            }
        }
        if listed(entries, other) {
            let k = index_of(entries, other);
            assert(longer[k].0 == other);
        }
    }
    assert forall|other: Address|
        contents(longer).contains_key(other) implies contents(longer)[other] == expected[other] by {
        let k = index_of(longer, other);
        lemma_at(longer, k);
        if k < entries.len() {
            lemma_at(entries, k);
        }
    }
    assert(contents(longer) =~= expected);
}

impl Escrow {
    /// Invariant of the escrow.
    pub closed spec fn valid(&self) -> bool {
        entries_valid(self.entries@)
    }

    /// Every amount held can be represented.
    pub proof fn lemma_in_range(&self, who: Address)
        requires
            self.valid(),
        ensures
            in_range(balance_of(self@, who)),
    {
    }

    /// Only finitely many addresses have an entry.
    pub proof fn lemma_finite(&self)
        ensures
            self@.dom().finite(),
    {
        let addresses = self.entries@.map_values(|entry: (Address, i128)| entry.0);
        assert forall|who: Address| self@.dom().contains(who) implies addresses.to_set().contains(
            who,
        ) by {
            let i = index_of(self.entries@, who);
            assert(addresses[i] == who);
        }
        vstd::seq_lib::seq_to_set_is_finite(addresses);
        vstd::set_lib::lemma_len_subset(self@.dom(), addresses.to_set());
    }

    /// An empty escrow.
    pub fn new() -> (escrow: Self)
        ensures
            escrow.valid(),
            escrow@ == Map::<Address, int>::empty(),
    {
        let escrow = Escrow { entries: Vec::new() };
        assert(escrow@ =~= Map::<Address, int>::empty());
        escrow
    }

    /// Index of the entry of the address.
    fn find(&self, who: Address) -> (found: Option<usize>)
        requires
            self.valid(),
        ensures
            match found {
                Some(i) => {
                    &&& i < self.entries@.len()
                    &&& self.entries@[i as int].0 == who
                    &&& self@.contains_key(who)
                    &&& self@[who] == self.entries@[i as int].1
                },
                None => !self@.contains_key(who) && !listed(self.entries@, who),
            },
    {
        let mut i: usize = 0;
        while i < self.entries.len()
            invariant
                self.valid(),
                i <= self.entries@.len(),
                forall|j: int| 0 <= j < i ==> (#[trigger] self.entries@[j]).0 != who,
            decreases self.entries@.len() - i,
        {
            if self.entries[i].0 == who {
                proof {
                    lemma_at(self.entries@, i as int);
                }
                return Some(i);
            }
            i = i + 1;
        }
        None
    }

    /// What the address has in escrow.
    pub fn balance(&self, who: Address) -> (amount: i128)
        requires
            self.valid(),
        ensures
            amount == balance_of(self@, who),
    {
        match self.find(who) {
            Some(i) => self.entries[i].1,
            None => 0,
        }
    }

    /// Sets what the address has in escrow.
    pub fn set(&mut self, who: Address, amount: i128)
        requires
            old(self).valid(),
        ensures
            final(self).valid(),
            final(self)@ == old(self)@.insert(who, amount as int),
    {
        match self.find(who) {
            Some(i) => {
                proof {
                    lemma_update(self.entries@, i as int, amount);
                }
                self.entries.set(i, (who, amount));
            },
            None => {
                proof {
                    lemma_push(self.entries@, who, amount);
                }
                self.entries.push((who, amount));
            },
        }
    }

    /// Adds `amount` for the address, if the result can be held; tells whether it
    /// could.
    pub fn adjust(&mut self, who: Address, amount: i128) -> (done: bool)
        requires
            old(self).valid(),
        ensures
            final(self).valid(),
            done == adjustable(old(self)@, who, amount as int),
            final(self)@ == if done {
                adjusted(old(self)@, who, amount as int)
            } else {
                old(self)@
            },
    {
        match self.balance(who).checked_add(amount) {
            Some(sum) => {
                self.set(who, sum);
                true
            },
            None => false,
        }
    }

    /// Deducts `amount` for the address, if the result can be held; tells whether
    /// it could.
    pub fn deduct(&mut self, who: Address, amount: i128) -> (done: bool)
        requires
            old(self).valid(),
        ensures
            final(self).valid(),
            done == adjustable(old(self)@, who, -amount),
            final(self)@ == if done {
                adjusted(old(self)@, who, -amount)
            } else {
                old(self)@
            },
    {
        match self.balance(who).checked_sub(amount) {
            Some(rest) => {
                self.set(who, rest);
                true
            },
            None => false,
        }
    }

    /// A second escrow that holds the same amounts.
    pub fn duplicate(&self) -> (copy: Self)
        requires
            self.valid(),
        ensures
            copy.valid(),
            copy@ == self@,
    {
        let mut entries: Vec<(Address, i128)> = Vec::new();
        let mut i: usize = 0;
        while i < self.entries.len()
            invariant
                i <= self.entries@.len(),
                entries@ == self.entries@.take(i as int),
            decreases self.entries@.len() - i,
        {
            entries.push(self.entries[i]);
            i = i + 1;
            assert(entries@ =~= self.entries@.take(i as int));
        }
        assert(entries@ =~= self.entries@);
        Escrow { entries }
    }

    /// The addresses that have an entry, each with its amount.
    pub fn entries(&self) -> (entries: &Vec<(Address, i128)>)
        requires
            self.valid(),
        ensures
            forall|i: int, j: int|
                0 <= i < j < entries@.len() ==> (#[trigger] entries@[i]).0 != (
                #[trigger] entries@[j]).0,
            forall|i: int|
                0 <= i < entries@.len() ==> self@.contains_pair(
                    (#[trigger] entries@[i]).0,
                    entries@[i].1 as int,
                ),
            forall|who: Address| #[trigger]
                self@.contains_key(who) ==> exists|i: int|
                    0 <= i < entries@.len() && (#[trigger] entries@[i]).0 == who,
    {
        proof {
            assert forall|i: int| 0 <= i < self.entries@.len() implies self@.contains_pair(
                (#[trigger] self.entries@[i]).0,
                self.entries@[i].1 as int,
            ) by {
                lemma_at(self.entries@, i);
            }
        }
        &self.entries
    }
}

} // verus!
