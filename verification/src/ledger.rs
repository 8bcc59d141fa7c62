//! The donation ledger of one project: one record per donor, holding the
//! cumulative amount that is still held for that donor.

use vstd::prelude::*;
use crate::storage_types::{donations_view, Address, DonationData, DonationView};

verus! {

/// The sum of all amounts in the ledger.
pub open spec fn ledger_total(ds: Seq<DonationView>) -> int
    decreases ds.len(),
{
    if ds.len() == 0 {
        0
    } else {
        ledger_total(ds.drop_last()) + ds.last().amount
    }
}

/// Whether the ledger holds a record for `donor`.
pub open spec fn has_donor(ds: Seq<DonationView>, donor: Seq<char>) -> bool {
    exists|i: int| 0 <= i < ds.len() && (#[trigger] ds[i]).donor == donor
}

/// The place of `donor`'s record, where the ledger holds one.
pub open spec fn donor_slot(ds: Seq<DonationView>, donor: Seq<char>) -> int {
    choose|i: int| 0 <= i < ds.len() && (#[trigger] ds[i]).donor == donor
}

/// What the ledger holds for `donor`; zero where it has no record.
pub open spec fn donated(ds: Seq<DonationView>, donor: Seq<char>) -> u128 {
    if has_donor(ds, donor) {
        ds[donor_slot(ds, donor)].amount
    } else {
        0
    }
}

/// No donor has two records.
pub open spec fn distinct_donors(ds: Seq<DonationView>) -> bool {
    forall|i: int, j: int|
        0 <= i < j < ds.len() ==> (#[trigger] ds[i]).donor != (#[trigger] ds[j]).donor
}

/// Every record holds a positive amount.
pub open spec fn all_positive(ds: Seq<DonationView>) -> bool {
    forall|i: int| 0 <= i < ds.len() ==> (#[trigger] ds[i]).amount > 0
}

/// The ledger after `donor` gave `amount` at time `now`: their record grows by
/// the amount, or a new record is appended where they had none.
pub open spec fn credited(ds: Seq<DonationView>, donor: Seq<char>, amount: u128, now: u64) -> Seq<
    DonationView,
> {
    if has_donor(ds, donor) {
        let i = donor_slot(ds, donor);
        ds.update(
            i,
            DonationView { donor, amount: (ds[i].amount + amount) as u128, timestamp: now },
        )
    } else {
        ds.push(DonationView { donor, amount, timestamp: now })
    }
}

/// The ledger after `donor`'s record was paid back: its amount is zero.
pub open spec fn cleared(ds: Seq<DonationView>, donor: Seq<char>) -> Seq<DonationView> {
    if has_donor(ds, donor) {
        let i = donor_slot(ds, donor);
        ds.update(i, DonationView { donor, amount: 0, timestamp: ds[i].timestamp })
    } else {
        ds
    }
}

/// The donors that hold a positive amount, in the order of their first donation.
pub open spec fn positive_donors(ds: Seq<DonationView>) -> Seq<Seq<char>>
    decreases ds.len(),
{
    if ds.len() == 0 {
        Seq::empty()
    } else if ds.last().amount > 0 {
        positive_donors(ds.drop_last()).push(ds.last().donor)
    } else {
        positive_donors(ds.drop_last())
    }
}

/// With distinct donors, a record of `donor` found at `i` is the donor's slot.
pub proof fn lemma_slot_unique(ds: Seq<DonationView>, donor: Seq<char>, i: int)
    requires
        distinct_donors(ds),
        0 <= i < ds.len(),
        ds[i].donor == donor,
    ensures
        has_donor(ds, donor),
        donor_slot(ds, donor) == i,
{
    let j = donor_slot(ds, donor);
    assert(0 <= j < ds.len() && ds[j].donor == donor);
    if j < i {
        assert(ds[j].donor != ds[i].donor);
    } else if i < j {
        assert(ds[i].donor != ds[j].donor);
    }
}

/// Appending a record adds its amount to the total.
pub proof fn lemma_total_push(ds: Seq<DonationView>, d: DonationView)
    ensures
        ledger_total(ds.push(d)) == ledger_total(ds) + d.amount,
{
    assert(ds.push(d).drop_last() =~= ds);
}

/// Replacing a record changes the total by the difference of the two amounts.
pub proof fn lemma_total_update(ds: Seq<DonationView>, i: int, d: DonationView)
    requires
        0 <= i < ds.len(),
    ensures
        ledger_total(ds.update(i, d)) == ledger_total(ds) - ds[i].amount + d.amount,
    decreases ds.len(),
{
    if i == ds.len() - 1 {
        assert(ds.update(i, d).drop_last() =~= ds.drop_last());
    } else {
        lemma_total_update(ds.drop_last(), i, d);
        assert(ds.update(i, d).drop_last() =~= ds.drop_last().update(i, d));
    }
}

/// No record exceeds the total, and the total is never negative.
pub proof fn lemma_total_bounds(ds: Seq<DonationView>, i: int)
    requires
        0 <= i < ds.len(),
    ensures
        0 <= ds[i].amount <= ledger_total(ds),
    decreases ds.len(),
{
    lemma_total_nonnegative(ds.drop_last());
    if i < ds.len() - 1 {
        lemma_total_bounds(ds.drop_last(), i);
    }
}

/// The total is never negative.
pub proof fn lemma_total_nonnegative(ds: Seq<DonationView>)
    ensures
        0 <= ledger_total(ds),
    decreases ds.len(),
{
    if ds.len() > 0 {
        lemma_total_nonnegative(ds.drop_last());
    }
}

/// What a positive donation does to the ledger: the donor's balance and the
/// total both grow by the amount, every other balance stays, donors stay
/// distinct and amounts positive.
pub proof fn lemma_credited(ds: Seq<DonationView>, donor: Seq<char>, amount: u128, now: u64)
    requires
        distinct_donors(ds),
        ledger_total(ds) + amount <= u128::MAX,
    ensures
        distinct_donors(credited(ds, donor, amount, now)),
        ledger_total(credited(ds, donor, amount, now)) == ledger_total(ds) + amount,
        has_donor(credited(ds, donor, amount, now), donor),
        donated(credited(ds, donor, amount, now), donor) == donated(ds, donor) + amount,
        forall|other: Seq<char>|
            other != donor ==> donated(credited(ds, donor, amount, now), other) == donated(
                ds,
                other,
            ),
        all_positive(ds) && amount > 0 ==> all_positive(credited(ds, donor, amount, now)),
{
    let after = credited(ds, donor, amount, now);
    let slot = if has_donor(ds, donor) {
        donor_slot(ds, donor)
    } else {
        ds.len() as int
    };
    if has_donor(ds, donor) {
        lemma_total_bounds(ds, slot);
        lemma_total_update(ds, slot, after[slot]);
    } else {
        lemma_total_push(ds, after[slot]);
    }
    assert(after[slot].donor == donor);
    assert forall|i: int| 0 <= i < after.len() implies (#[trigger] after[i]).donor == (if i
        == slot {
        donor
    } else {
        ds[i].donor
    }) by {}
    assert(distinct_donors(after)) by {
        assert forall|i: int, j: int| 0 <= i < j < after.len() implies (#[trigger] after[i]).donor
            != (#[trigger] after[j]).donor by {
            if i < ds.len() && j < ds.len() {
                assert(ds[i].donor != ds[j].donor);
            } else {
                assert(ds[i].donor != donor);
            }
        }
    }
    lemma_slot_unique(after, donor, slot);
    assert forall|other: Seq<char>| other != donor implies donated(after, other) == donated(
        ds,
        other,
    ) by {
        if has_donor(ds, other) {
            let k = donor_slot(ds, other);
            assert(after[k].donor == other);
            lemma_slot_unique(after, other, k);
        } else if has_donor(after, other) {
            let k = donor_slot(after, other);
            assert(ds[k].donor == other);
        }
    }
}

/// What paying a donor back does to the ledger: their balance becomes zero,
/// the total falls by what they held, every other balance stays.
pub proof fn lemma_cleared(ds: Seq<DonationView>, donor: Seq<char>)
    requires
        distinct_donors(ds),
    ensures
        distinct_donors(cleared(ds, donor)),
        ledger_total(cleared(ds, donor)) == ledger_total(ds) - donated(ds, donor),
        donated(cleared(ds, donor), donor) == 0,
        forall|other: Seq<char>|
            other != donor ==> donated(cleared(ds, donor), other) == donated(ds, other),
{
    let after = cleared(ds, donor);
    if has_donor(ds, donor) {
        let slot = donor_slot(ds, donor);
        lemma_total_update(ds, slot, after[slot]);
        assert forall|i: int| 0 <= i < after.len() implies (#[trigger] after[i]).donor
            == ds[i].donor by {}
        assert(distinct_donors(after)) by {
            assert forall|i: int, j: int| 0 <= i < j < after.len() implies (
            #[trigger] after[i]).donor != (#[trigger] after[j]).donor by {
                assert(ds[i].donor != ds[j].donor);
            }
        }
        lemma_slot_unique(after, donor, slot);
        assert forall|other: Seq<char>| other != donor implies donated(after, other) == donated(
            ds,
            other,
        ) by {
            if has_donor(ds, other) {
                let k = donor_slot(ds, other);
                assert(after[k].donor == other);
                lemma_slot_unique(after, other, k);
            } else if has_donor(after, other) {
                let k = donor_slot(after, other);
                assert(ds[k].donor == other);
            }
        }
    }
}

/// What the last record has to do with a donor's balance: it is the balance
/// of its own donor, who has no other record, and no part of anyone else's.
pub proof fn lemma_donated_last(ds: Seq<DonationView>, donor: Seq<char>)
    requires
        distinct_donors(ds),
        ds.len() > 0,
    ensures
        distinct_donors(ds.drop_last()),
        ds.last().donor == donor ==> donated(ds, donor) == ds.last().amount && !has_donor(
            ds.drop_last(),
            donor,
        ),
        ds.last().donor != donor ==> donated(ds, donor) == donated(ds.drop_last(), donor),
{
    let init = ds.drop_last();
    let n = ds.len() - 1;
    assert forall|i: int, j: int| 0 <= i < j < init.len() implies (#[trigger] init[i]).donor != (
    #[trigger] init[j]).donor by {
        assert(ds[i].donor != ds[j].donor);
    }
    if ds.last().donor == donor {
        lemma_slot_unique(ds, donor, n);
        if has_donor(init, donor) {
            let k = donor_slot(init, donor);
            assert(init[k].donor == donor);
            assert(ds[k].donor != ds[n].donor);
        }
    } else if has_donor(ds, donor) {
        let k = donor_slot(ds, donor);
        assert(init[k].donor == donor);
        lemma_slot_unique(init, donor, k);
    } else if has_donor(init, donor) {
        let k = donor_slot(init, donor);
        assert(ds[k].donor == donor);
    }
}

/// The donor set is exactly the set of donors with a positive balance.
pub proof fn law_donor_set(ds: Seq<DonationView>, donor: Seq<char>)
    requires
        distinct_donors(ds),
    ensures
        positive_donors(ds).contains(donor) <==> donated(ds, donor) > 0,
    decreases ds.len(),
{
    if ds.len() > 0 {
        let init = ds.drop_last();
        lemma_donated_last(ds, donor);
        law_donor_set(init, donor);
        let known = positive_donors(init);
        if ds.last().amount > 0 {
            let all = known.push(ds.last().donor);
            if known.contains(donor) {
                let k = choose|k: int| 0 <= k < known.len() && known[k] == donor;
                assert(all[k] == donor);
            }
            if ds.last().donor == donor {
                assert(all[known.len() as int] == donor);
            }
            if all.contains(donor) {
                let k = choose|k: int| 0 <= k < all.len() && all[k] == donor;
                if k < known.len() {
                    assert(known[k] == donor);
                }
            }
        }
    }
}

/// Finds the record of `donor`, if the ledger holds one.
pub fn find_donor(donations: &Vec<DonationData>, donor: &Address) -> (found: Option<usize>)
    ensures
        match found {
            Some(i) => i < donations.len() && donations[i as int].donor@ == donor@,
            None => !has_donor(donations_view(donations@), donor@),
        },
{
    let mut i: usize = 0;
    while i < donations.len()
        invariant
            i <= donations.len(),
            forall|k: int| 0 <= k < i ==> (#[trigger] donations[k]).donor@ != donor@,
        decreases donations.len() - i,
    {
        if donations[i].donor.same_as(donor) {
            return Some(i);
        }
        i += 1;
    }
    proof {
        let ds = donations_view(donations@);
        assert forall|k: int| 0 <= k < ds.len() implies (#[trigger] ds[k]).donor != donor@ by {
            assert(donations[k].donor@ != donor@);
        }
    }
    None
}

/// What the ledger holds for `donor`; zero where it has no record.
pub fn donation_of(donations: &Vec<DonationData>, donor: &Address) -> (amount: u128)
    requires
        distinct_donors(donations_view(donations@)),
    ensures
        amount == donated(donations_view(donations@), donor@),
{
    match find_donor(donations, donor) {
        Some(i) => {
            proof {
                lemma_slot_unique(donations_view(donations@), donor@, i as int);
            }
            donations[i].amount
        },
        None => 0,
    }
}

/// Adds `amount` to what the ledger holds for `donor`, appending a record on
/// their first donation, and returns their new cumulative amount.
pub(crate) fn record_donation(
    donations: &mut Vec<DonationData>,
    donor: &Address,
    amount: u128,
    now: u64,
) -> (total: u128)
    requires
        distinct_donors(donations_view(old(donations)@)),
        ledger_total(donations_view(old(donations)@)) + amount <= u128::MAX,
    ensures
        donations_view(final(donations)@) == credited(
            donations_view(old(donations)@),
            donor@,
            amount,
            now,
        ),
        total == donated(donations_view(final(donations)@), donor@),
        total == donated(donations_view(old(donations)@), donor@) + amount,
{
    let ghost before = donations_view(donations@);
    proof {
        lemma_credited(before, donor@, amount, now);
    }
    match find_donor(donations, donor) {
        Some(i) => {
            proof {
                lemma_slot_unique(before, donor@, i as int);
                lemma_total_bounds(before, i as int);
            }
            let held = donations.remove(i);
            let total: u128 = held.amount + amount;
            donations.insert(i, DonationData { donor: held.donor, amount: total, timestamp: now });
            assert(donations_view(donations@) =~= credited(before, donor@, amount, now));
            total
        },
        None => {
            donations.push(DonationData { donor: donor.clone(), amount, timestamp: now });
            assert(donations_view(donations@) =~= credited(before, donor@, amount, now));
            amount
        },
    }
}

/// Sets what the ledger holds for `donor` to zero and returns what it held.
pub(crate) fn clear_donation(donations: &mut Vec<DonationData>, donor: &Address) -> (amount: u128)
    requires
        distinct_donors(donations_view(old(donations)@)),
    ensures
        donations_view(final(donations)@) == cleared(donations_view(old(donations)@), donor@),
        amount == donated(donations_view(old(donations)@), donor@),
{
    let ghost before = donations_view(donations@);
    match find_donor(donations, donor) {
        Some(i) => {
            proof {
                lemma_slot_unique(before, donor@, i as int);
            }
            let held = donations.remove(i);
            let amount: u128 = held.amount;
            donations.insert(
                i,
                DonationData { donor: held.donor, amount: 0, timestamp: held.timestamp },
            );
            assert(donations_view(donations@) =~= cleared(before, donor@));
            amount
        },
        None => 0,
    }
}

/// The donors that hold a positive amount, in the order of their first donation.
pub fn active_donors(donations: &Vec<DonationData>) -> (donors: Vec<Address>)
    ensures
        donors@.map_values(|a: Address| a@) == positive_donors(donations_view(donations@)),
{
    let mut donors: Vec<Address> = Vec::new();
    let mut i: usize = 0;
    let ghost ds = donations_view(donations@);
    assert(ds.take(0) =~= Seq::<DonationView>::empty());
    assert(donors@.map_values(|a: Address| a@) =~= positive_donors(ds.take(0)));
    while i < donations.len()
        invariant
            i <= donations.len(),
            ds == donations_view(donations@),
            donors@.map_values(|a: Address| a@) == positive_donors(ds.take(i as int)),
        decreases donations.len() - i,
    {
        proof {
            assert(ds.take(i + 1).drop_last() =~= ds.take(i as int));
            assert(ds.take(i + 1).last() == ds[i as int]);
        }
        let ghost prior = donors@.map_values(|a: Address| a@);
        if donations[i].amount > 0 {
            donors.push(donations[i].donor.clone());
            assert(donors@.map_values(|a: Address| a@) =~= prior.push(ds[i as int].donor));
        }
        i += 1;
    }
    assert(ds.take(i as int) =~= ds);
    donors
}

/// The total of the first `n` records never exceeds the total of all.
pub proof fn lemma_total_prefix(ds: Seq<DonationView>, n: int)
    requires
        0 <= n <= ds.len(),
    ensures
        ledger_total(ds.take(n)) <= ledger_total(ds),
    decreases ds.len(),
{
    if n == ds.len() {
        assert(ds.take(n) =~= ds);
    } else {
        lemma_total_prefix(ds.drop_last(), n);
        assert(ds.drop_last().take(n) =~= ds.take(n));
    }
}

/// Adds up the ledger, as long as the total stays within `limit`.
pub fn total_within(donations: &Vec<DonationData>, limit: u128) -> (total: Option<u128>)
    ensures
        match total {
            Some(t) => t == ledger_total(donations_view(donations@)) && t <= limit,
            None => ledger_total(donations_view(donations@)) > limit,
        },
{
    let ghost ds = donations_view(donations@);
    let mut sum: u128 = 0;
    let mut i: usize = 0;
    assert(ds.take(0) =~= Seq::<DonationView>::empty());
    while i < donations.len()
        invariant
            i <= donations.len(),
            ds == donations_view(donations@),
            sum == ledger_total(ds.take(i as int)),
            sum <= limit,
        decreases donations.len() - i,
    {
        let amount: u128 = donations[i].amount;
        proof {
            assert(ds.take(i + 1).drop_last() =~= ds.take(i as int));
            assert(ds.take(i + 1).last() == ds[i as int]);
            lemma_total_prefix(ds, i + 1);
        }
        if amount > limit - sum {
            return None;
        }
        sum = sum + amount;
        i += 1;
    }
    assert(ds.take(i as int) =~= ds);
    Some(sum)
}

/// Whether no donor has two records.
pub fn donors_are_distinct(donations: &Vec<DonationData>) -> (ok: bool)
    ensures
        ok == distinct_donors(donations_view(donations@)),
{
    let ghost ds = donations_view(donations@);
    let mut j: usize = 0;
    while j < donations.len()
        invariant
            j <= donations.len(),
            ds == donations_view(donations@),
            forall|a: int, b: int| 0 <= a < b < j ==> (#[trigger] ds[a]).donor != (#[trigger] ds[b]).donor,
        decreases donations.len() - j,
    {
        let mut i: usize = 0;
        while i < j
            invariant
                i <= j,
                j < donations.len(),
                ds == donations_view(donations@),
                forall|a: int| 0 <= a < i ==> (#[trigger] ds[a]).donor != ds[j as int].donor,
            decreases j - i,
        {
            if donations[i].donor.same_as(&donations[j].donor) {
                assert(ds[i as int].donor == ds[j as int].donor);
                return false;
            }
            i += 1;
        }
        j += 1;
    }
    true
}

/// Whether every record holds a positive amount.
pub fn amounts_are_positive(donations: &Vec<DonationData>) -> (ok: bool)
    ensures
        ok == all_positive(donations_view(donations@)),
{
    let ghost ds = donations_view(donations@);
    let mut i: usize = 0;
    while i < donations.len()
        invariant
            i <= donations.len(),
            ds == donations_view(donations@),
            forall|a: int| 0 <= a < i ==> (#[trigger] ds[a]).amount > 0,
        decreases donations.len() - i,
    {
        if donations[i].amount == 0 {
            assert(ds[i as int].amount == 0);
            return false;
        }
        i += 1;
    }
    true
}

} // verus!
