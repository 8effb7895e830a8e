use vstd::prelude::*;

use crate::address::Address;

verus! {

/// The staked balances on record, one entry per staker.
pub struct StakedBalances {
    entries: Vec<(Address, i128)>,
}

/// No staker has two entries.
spec fn distinct(entries: Seq<(Address, i128)>) -> bool {
    forall|i: int, j: int|
        0 <= i < j < entries.len() ==> (#[trigger] entries[i]).0 != (#[trigger] entries[j]).0
}

/// Position `i` holds the entry of `staker`.
spec fn holds(entries: Seq<(Address, i128)>, staker: Address, i: int) -> bool {
    0 <= i < entries.len() && entries[i].0 == staker
}

/// The balances that a list of entries records.
spec fn recorded(entries: Seq<(Address, i128)>) -> Map<Address, i128> {
    Map::new(
        |staker: Address| exists|i: int| holds(entries, staker, i),
        |staker: Address| entries[choose|i: int| holds(entries, staker, i)].1,
    )
}

/// An entry is what its staker's balance reads as.
proof fn lemma_recorded_entry(entries: Seq<(Address, i128)>, i: int)
    requires
        distinct(entries),
        0 <= i < entries.len(),
    ensures
        recorded(entries).contains_key(entries[i].0),
        recorded(entries)[entries[i].0] == entries[i].1,
{
    let staker = entries[i].0;
    assert(holds(entries, staker, i));
    let j = choose|j: int| holds(entries, staker, j);
    assert(holds(entries, staker, j));
    assert(i == j);
}

/// Appending the entry of a new staker inserts it into the record.
proof fn lemma_push_inserts(entries: Seq<(Address, i128)>, staker: Address, amount: i128)
    requires
        distinct(entries),
        forall|i: int| !holds(entries, staker, i),
    ensures
        distinct(entries.push((staker, amount))),
        recorded(entries.push((staker, amount))) == recorded(entries).insert(staker, amount),
{
    let longer = entries.push((staker, amount));
    assert(distinct(longer)) by {
        assert forall|i: int, j: int| 0 <= i < j < longer.len() implies (#[trigger] longer[i]).0 != (
        #[trigger] longer[j]).0 by {
            assert(!holds(entries, staker, i));
        }
    }
    assert forall|a: Address| #[trigger]
        recorded(longer).contains_key(a) == recorded(entries).insert(
            staker,
            amount,
        ).contains_key(a) by {
        if a == staker {
            assert(holds(longer, a, entries.len() as int));
        } else if exists|i: int| holds(entries, a, i) {
            let i = choose|i: int| holds(entries, a, i);
            assert(holds(longer, a, i));
        } else if exists|i: int| holds(longer, a, i) {
            let i = choose|i: int| holds(longer, a, i);
            assert(holds(entries, a, i));
        }
    }
    assert forall|a: Address| #[trigger] recorded(longer).contains_key(a) implies recorded(
        longer,
    )[a] == recorded(entries).insert(staker, amount)[a] by {
        let i = choose|i: int| holds(longer, a, i);
        assert(holds(longer, a, i));
        lemma_recorded_entry(longer, i);
        if i < entries.len() {
            lemma_recorded_entry(entries, i);
            assert(!holds(entries, staker, i));
        }
    }
    assert(recorded(longer) =~= recorded(entries).insert(staker, amount));
}

/// Overwriting a staker's entry inserts the new amount into the record.
proof fn lemma_update_inserts(entries: Seq<(Address, i128)>, k: int, amount: i128)
    requires
        distinct(entries),
        0 <= k < entries.len(),
    ensures
        distinct(entries.update(k, (entries[k].0, amount))),
        recorded(entries.update(k, (entries[k].0, amount))) == recorded(entries).insert(
            entries[k].0,
            amount,
        ),
{
    let staker = entries[k].0;
    let changed = entries.update(k, (staker, amount));
    assert forall|i: int| 0 <= i < entries.len() implies (#[trigger] changed[i]).0
        == entries[i].0 by {}
    assert(distinct(changed));
    assert forall|a: Address, i: int| holds(changed, a, i) == #[trigger] holds(entries, a, i) by {}
    assert forall|a: Address| #[trigger]
        recorded(changed).contains_key(a) == recorded(entries).insert(
            staker,
            amount,
        ).contains_key(a) by {
        if a == staker {
            assert(holds(changed, a, k));
        } else if exists|i: int| holds(entries, a, i) {
            let i = choose|i: int| holds(entries, a, i);
            assert(holds(changed, a, i));
        } else if exists|i: int| holds(changed, a, i) {
            let i = choose|i: int| holds(changed, a, i);
            assert(holds(entries, a, i));
        }
    }
    assert forall|a: Address| #[trigger] recorded(changed).contains_key(a) implies recorded(
        changed,
    )[a] == recorded(entries).insert(staker, amount)[a] by {
        let i = choose|i: int| holds(changed, a, i);
        lemma_recorded_entry(changed, i);
        lemma_recorded_entry(entries, i);
    }
    assert(recorded(changed) =~= recorded(entries).insert(staker, amount));
}

impl View for StakedBalances {
    type V = Map<Address, i128>;

    closed spec fn view(&self) -> Map<Address, i128> {
        recorded(self.entries@)
    }
}

impl StakedBalances {
    #[verifier::type_invariant]
    spec fn well_formed(self) -> bool {
        distinct(self.entries@)
    }

    /// A record without any stakers.
    pub fn new() -> (balances: Self)
        ensures
            balances@ == Map::<Address, i128>::empty(),
    {
        let balances = StakedBalances { entries: Vec::new() };
        assert forall|a: Address| !(#[trigger] balances@.contains_key(a)) by {
            assert(forall|i: int| !holds(balances.entries@, a, i));
        }
        assert(balances@ =~= Map::<Address, i128>::empty());
        balances
    }

    /// The amount on record for `staker`, if there is an entry.
    pub fn get(&self, staker: Address) -> (amount: Option<i128>)
        ensures
            amount == self@.get(staker),
    {
        proof {
            use_type_invariant(self);
        }
        let mut i: usize = 0;
        while i < self.entries.len()
            invariant
                i <= self.entries.len(),
                distinct(self.entries@),
                forall|j: int| 0 <= j < i ==> (#[trigger] self.entries@[j]).0 != staker,
            decreases self.entries.len() - i,
        {
            if self.entries[i].0 == staker {
                proof {
                    lemma_recorded_entry(self.entries@, i as int);
                }
                return Some(self.entries[i].1);
            }
            i += 1;
        }
        assert(forall|j: int| !holds(self.entries@, staker, j));
        None
    }

    /// Puts `amount` on record for `staker`, in place of any earlier entry.
    pub fn set(&mut self, staker: Address, amount: i128)
        ensures
            final(self)@ == old(self)@.insert(staker, amount),
    {
        proof {
            use_type_invariant(&*self);
        }
        let mut entries: Vec<(Address, i128)> = Vec::new();
        std::mem::swap(&mut entries, &mut self.entries);
        let ghost before = entries@;
        let mut i: usize = 0;
        while i < entries.len()
            invariant
                i <= entries.len(),
                entries@ == before,
                distinct(before),
                recorded(before) == old(self)@,
                forall|j: int| 0 <= j < i ==> (#[trigger] before[j]).0 != staker,
            decreases entries.len() - i,
        {
            if entries[i].0 == staker {
                proof {
                    lemma_update_inserts(before, i as int, amount);
                }
                entries.set(i, (staker, amount));
                self.entries = entries;
                return ;
            }
            i += 1;
        }
        proof {
            assert(forall|j: int| !holds(before, staker, j));
            lemma_push_inserts(before, staker, amount);
        }
        entries.push((staker, amount));
        self.entries = entries;
    }
}

} // verus!
