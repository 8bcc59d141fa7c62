//! The lifecycle of one project and the rules of its three money-moving
//! operations, stated over the project's mathematical value and carried out
//! on the stored entry.

use vstd::prelude::*;
use crate::errors::{u128_to_i128, ContractError, MAX_AMOUNT};
use crate::ledger::{
    active_donors, all_positive, amounts_are_positive, clear_donation, cleared, credited,
    distinct_donors, donated, donation_of, donor_slot, donors_are_distinct, ledger_total,
    lemma_cleared, lemma_credited, lemma_total_bounds, lemma_total_nonnegative, positive_donors,
    record_donation, total_within,
};
use crate::storage_types::{
    donations_view, Address, DataKey, DonationData, EntryView, KeyView, Project, ProjectEntry,
    ProjectStatus, ProjectView, Record, RecordView,
};

verus! {

/// The validity of a project with its ledger: the goal is positive, what was
/// raised is exactly what the ledger holds plus what was refunded, the status
/// agrees with the goal, and nothing is refunded or emptied before failure.
pub open spec fn entry_wf(e: EntryView) -> bool {
    &&& e.project.goal > 0
    &&& e.project.raised <= MAX_AMOUNT
    &&& distinct_donors(e.donations)
    &&& ledger_total(e.donations) + e.refunded == e.project.raised
    &&& (e.project.status == ProjectStatus::Failed || e.project.status == ProjectStatus::Active
        ==> e.project.raised < e.project.goal)
    &&& (e.project.status == ProjectStatus::GoalReached || e.project.status
        == ProjectStatus::Completed ==> e.project.raised >= e.project.goal)
    &&& (e.project.status != ProjectStatus::Failed ==> e.refunded == 0 && all_positive(
        e.donations,
    ))
    &&& e.project.claimed == (e.project.status == ProjectStatus::Completed || e.project.status
        == ProjectStatus::Failed)
}

/// The entry of a project that was just created.
pub open spec fn fresh_entry(
    id: Seq<char>,
    creator: Seq<char>,
    goal: u128,
    deadline: u64,
    description: Seq<char>,
) -> EntryView {
    EntryView {
        id,
        project: ProjectView {
            creator,
            goal,
            raised: 0,
            deadline,
            claimed: false,
            description,
            status: ProjectStatus::Active,
        },
        refunded: 0,
        donations: Seq::empty(),
    }
}

/// What is stored of an entry, key by key: the project under its identifier,
/// the donor set under the project, and each donor's record under project
/// and donor, in the order of the ledger.
pub open spec fn stored_records(e: EntryView) -> Seq<(KeyView, RecordView)> {
    Seq::new(
        e.donations.len() + 2,
        |i: int|
            if i == 0 {
                (KeyView::Project(e.id), RecordView::Project(e.project))
            } else if i == 1 {
                (
                    KeyView::ProjectDonors(e.id),
                    RecordView::Donors(positive_donors(e.donations)),
                )
            } else {
                (
                    KeyView::Donation(e.id, e.donations[i - 2].donor),
                    RecordView::Donation(e.donations[i - 2]),
                )
            },
    )
}

/// The mathematical value of a list of stored records: the value of each key
/// and of what is stored under it, in order.
pub open spec fn records_view(rs: Seq<(DataKey, Record)>) -> Seq<(KeyView, RecordView)> {
    rs.map_values(|r: (DataKey, Record)| (r.0@, r.1@))
}

/// The status that counts at time `now`: an active project whose deadline has
/// passed short of its goal has failed, whether or not that was stored yet.
pub open spec fn status_at(p: ProjectView, now: u64) -> ProjectStatus {
    if p.status == ProjectStatus::Active && now > p.deadline && p.raised < p.goal {
        ProjectStatus::Failed
    } else {
        p.status
    }
}

/// The entry after the failure that `now` brings, if any, was stored.
pub open spec fn lapsed(e: EntryView, now: u64) -> EntryView {
    EntryView {
        project: ProjectView {
            status: status_at(e.project, now),
            claimed: status_at(e.project, now) == ProjectStatus::Completed || status_at(
                e.project,
                now,
            ) == ProjectStatus::Failed,
            ..e.project
        },
        ..e
    }
}

/// The status after a donation of `amount`: an active project whose total
/// reaches the goal with it has reached its goal; any other status stays.
pub open spec fn status_after_donation(p: ProjectView, amount: u128) -> ProjectStatus {
    if p.status == ProjectStatus::Active && p.raised + amount >= p.goal {
        ProjectStatus::GoalReached
    } else {
        p.status
    }
}

/// Why a donation of `amount` at time `now` is refused, if it is.
pub open spec fn fund_refusal(e: EntryView, amount: u128, now: u64) -> Option<ContractError> {
    if amount == 0 {
        Some(ContractError::AmountCannotBeZero)
    } else if status_at(e.project, now) == ProjectStatus::Failed || status_at(e.project, now)
        == ProjectStatus::Completed {
        Some(ContractError::ProjectFundingEnded)
    } else if e.project.raised + amount > MAX_AMOUNT {
        Some(ContractError::AmountOverflow)
    } else {
        None
    }
}

/// The entry after an accepted donation.
pub open spec fn funded(e: EntryView, donor: Seq<char>, amount: u128, now: u64) -> EntryView {
    EntryView {
        project: ProjectView {
            raised: (e.project.raised + amount) as u128,
            status: status_after_donation(e.project, amount),
            ..e.project
        },
        donations: credited(e.donations, donor, amount, now),
        ..e
    }
}

/// What a claim by `caller` at time `now` is owed: the whole amount raised,
/// to the creator of a project that reached its goal, and else the refusal.
pub open spec fn claim_due(e: EntryView, caller: Seq<char>, now: u64) -> Result<
    u128,
    ContractError,
> {
    if caller != e.project.creator {
        Err(ContractError::NotAuthorized)
    } else {
        match status_at(e.project, now) {
            ProjectStatus::GoalReached => Ok(e.project.raised),
            ProjectStatus::Active => Err(ContractError::ClaimConditionsNotMet),
            ProjectStatus::Completed => Err(ContractError::InvalidProjectStatus),
            ProjectStatus::Failed => Err(ContractError::InvalidProjectStatus),
        }
    }
}

/// The entry after its funds were paid out to the creator.
pub open spec fn settled(e: EntryView) -> EntryView {
    EntryView {
        project: ProjectView { status: ProjectStatus::Completed, claimed: true, ..e.project },
        ..e
    }
}

/// What a refund to `donor` at time `now` is owed: all that the ledger holds
/// for them, in a failed project, and else the refusal.
pub open spec fn refund_due(e: EntryView, donor: Seq<char>, now: u64) -> Result<
    u128,
    ContractError,
> {
    match status_at(e.project, now) {
        ProjectStatus::Active => Err(ContractError::ProjectStillActive),
        ProjectStatus::GoalReached => Err(ContractError::ProjectSuccessful),
        ProjectStatus::Completed => Err(ContractError::ProjectSuccessful),
        ProjectStatus::Failed => if donated(e.donations, donor) == 0 {
            Err(ContractError::NoFundsToRefund)
        } else {
            Ok(donated(e.donations, donor))
        },
    }
}

/// The entry after `donor` was paid back: the failure is stored, the donor's
/// record is zero and the refunded total has grown by what they held.
pub open spec fn repaid(e: EntryView, donor: Seq<char>) -> EntryView {
    EntryView {
        project: ProjectView { status: ProjectStatus::Failed, claimed: true, ..e.project },
        refunded: (e.refunded + donated(e.donations, donor)) as u128,
        donations: cleared(e.donations, donor),
        ..e
    }
}

/// An accepted donation keeps the entry valid.
pub proof fn lemma_funded_wf(e: EntryView, donor: Seq<char>, amount: u128, now: u64)
    requires
        entry_wf(e),
        fund_refusal(e, amount, now).is_none(),
    ensures
        entry_wf(funded(e, donor, amount, now)),
{
    lemma_credited(e.donations, donor, amount, now);
}

/// A refund that is due keeps the entry valid.
pub proof fn lemma_repaid_wf(e: EntryView, donor: Seq<char>, now: u64)
    requires
        entry_wf(e),
        refund_due(e, donor, now).is_ok(),
    ensures
        entry_wf(repaid(e, donor)),
{
    lemma_cleared(e.donations, donor);
    lemma_total_bounds(e.donations, donor_slot(e.donations, donor));
}

impl Project {
    /// The status that counts at time `now`.
    pub fn effective_status(&self, now: u64) -> (status: ProjectStatus)
        ensures
            status == status_at(self@, now),
    {
        if self.status == ProjectStatus::Active && now > self.deadline && self.raised < self.goal {
            ProjectStatus::Failed
        } else {
            self.status
        }
    }
}

impl ProjectEntry {
    /// Whether the entry is valid.
    pub open spec fn wf(&self) -> bool {
        entry_wf(self@)
    }

    /// A new, active project with nothing raised.
    pub fn new(
        id: String,
        creator: Address,
        goal: u128,
        deadline: u64,
        description: String,
    ) -> (entry: Self)
        requires
            goal > 0,
        ensures
            entry@ == fresh_entry(id@, creator@, goal, deadline, description@),
            entry.wf(),
    {
        let entry = ProjectEntry {
            id,
            project: Project {
                creator,
                goal,
                raised: 0,
                deadline,
                claimed: false,
                description,
                status: ProjectStatus::Active,
            },
            refunded: 0,
            donations: Vec::new(),
        };
        assert(entry@.donations =~= Seq::empty());
        entry
    }

    /// Puts a stored project and its stored donation records together again,
    /// working out what was refunded as what the records fall short of the
    /// amount raised; `None` where the parts do not make a valid entry.
    pub fn from_records(
        id: String,
        project: Project,
        donations: Vec<DonationData>,
    ) -> (entry: Option<Self>)
        ensures
            match entry {
                Some(e) => e.wf() && e.id == id && e.project == project && e.donations
                    == donations,
                None => forall|refunded: u128|
                    !entry_wf(
                        (EntryView {
                            id: id@,
                            project: project@,
                            refunded,
                            donations: donations_view(donations@),
                        }),
                    ),
            },
    {
        if project.raised > MAX_AMOUNT {
            return None;
        }
        match total_within(&donations, project.raised) {
            None => None,
            Some(held) => {
                let entry = ProjectEntry {
                    id,
                    refunded: project.raised - held,
                    project,
                    donations,
                };
                if entry.is_valid() {
                    Some(entry)
                } else {
                    None
                }
            },
        }
    }

    /// Lists what is to be stored of the entry, each record with its key.
    pub fn records(&self) -> (records: Vec<(DataKey, Record)>)
        ensures
            records_view(records@) == stored_records(self@),
    {
        let mut records: Vec<(DataKey, Record)> = Vec::new();
        records.push((DataKey::Project(self.id.clone()), Record::Project(self.project.clone())));
        records.push(
            (
                DataKey::ProjectDonors(self.id.clone()),
                Record::Donors(active_donors(&self.donations)),
            ),
        );
        let ghost expected = stored_records(self@);
        let mut i: usize = 0;
        while i < self.donations.len()
            invariant
                i <= self.donations.len(),
                expected == stored_records(self@),
                records@.len() == i + 2,
                forall|k: int|
                    0 <= k < i + 2 ==> ((#[trigger] records@[k]).0@, records@[k].1@) == expected[k],
            decreases self.donations.len() - i,
        {
            let donation = self.donations[i].clone();
            let key = DataKey::Donation(self.id.clone(), donation.donor.clone());
            records.push((key, Record::Donation(donation)));
            i += 1;
        }
        assert(records_view(records@) =~= expected);
        records
    }

    /// Whether the entry is valid, worked out from what it holds.
    pub fn is_valid(&self) -> (valid: bool)
        ensures
            valid == self.wf(),
    {
        let p = &self.project;
        proof {
            lemma_total_nonnegative(self@.donations);
        }
        if p.goal == 0 || p.raised > MAX_AMOUNT || self.refunded > p.raised {
            return false;
        }
        let status_fits = match p.status {
            ProjectStatus::Active => p.raised < p.goal && !p.claimed && self.refunded == 0,
            ProjectStatus::Failed => p.raised < p.goal && p.claimed,
            ProjectStatus::GoalReached => p.raised >= p.goal && !p.claimed && self.refunded == 0,
            ProjectStatus::Completed => p.raised >= p.goal && p.claimed && self.refunded == 0,
        };
        if !status_fits {
            return false;
        }
        if p.status != ProjectStatus::Failed && !amounts_are_positive(&self.donations) {
            return false;
        }
        if !donors_are_distinct(&self.donations) {
            return false;
        }
        match total_within(&self.donations, p.raised - self.refunded) {
            None => false,
            Some(held) => held == p.raised - self.refunded,
        }
    }

    /// Stores the failure that `now` brings, if any, and returns the status
    /// that counts from now on.
    pub(crate) fn settle_status(&mut self, now: u64) -> (status: ProjectStatus)
        requires
            old(self).wf(),
        ensures
            final(self)@ == lapsed(old(self)@, now),
            final(self).wf(),
            status == status_at(old(self)@.project, now),
    {
        let status = self.project.effective_status(now);
        if status == ProjectStatus::Failed {
            self.project.status = ProjectStatus::Failed;
            self.project.claimed = true;
        }
        status
    }

    /// Says why a donation of `amount` at time `now` would be refused, if it would.
    pub fn check_fund(&self, amount: u128, now: u64) -> (refusal: Option<ContractError>)
        requires
            self.wf(),
        ensures
            refusal == fund_refusal(self@, amount, now),
    {
        if amount == 0 {
            return Some(ContractError::AmountCannotBeZero);
        }
        match self.project.effective_status(now) {
            ProjectStatus::Failed => Some(ContractError::ProjectFundingEnded),
            ProjectStatus::Completed => Some(ContractError::ProjectFundingEnded),
            _ => match self.project.raised.checked_add(amount) {
                None => Some(ContractError::AmountOverflow),
                Some(total) => match u128_to_i128(total) {
                    Err(e) => Some(e),
                    Ok(_) => None,
                },
            },
        }
    }

    /// Books an accepted donation and returns the donor's new cumulative amount.
    pub(crate) fn fund(&mut self, donor: &Address, amount: u128, now: u64) -> (total: u128)
        requires
            old(self).wf(),
            fund_refusal(old(self)@, amount, now).is_none(),
        ensures
            final(self)@ == funded(old(self)@, donor@, amount, now),
            final(self).wf(),
            total == donated(final(self)@.donations, donor@),
            total == donated(old(self)@.donations, donor@) + amount,
    {
        proof {
            lemma_funded_wf(self@, donor@, amount, now);
        }
        let raised: u128 = self.project.raised + amount;
        if self.project.status == ProjectStatus::Active && raised >= self.project.goal {
            self.project.status = ProjectStatus::GoalReached;
        }
        self.project.raised = raised;
        record_donation(&mut self.donations, donor, amount, now)
    }

    /// Says what a claim by `caller` at time `now` is owed.
    pub fn check_claim(&self, caller: &Address, now: u64) -> (due: Result<u128, ContractError>)
        ensures
            due == claim_due(self@, caller@, now),
    {
        if !self.project.creator.same_as(caller) {
            return Err(ContractError::NotAuthorized);
        }
        match self.project.effective_status(now) {
            ProjectStatus::GoalReached => Ok(self.project.raised),
            ProjectStatus::Active => Err(ContractError::ClaimConditionsNotMet),
            _ => Err(ContractError::InvalidProjectStatus),
        }
    }

    /// Closes the project after its funds were paid out to the creator.
    pub(crate) fn settle(&mut self)
        requires
            old(self).wf(),
            old(self).project.status == ProjectStatus::GoalReached,
        ensures
            final(self)@ == settled(old(self)@),
            final(self).wf(),
    {
        self.project.status = ProjectStatus::Completed;
        self.project.claimed = true;
    }

    /// Says what a refund to `donor` at time `now` is owed.
    pub fn check_refund(&self, donor: &Address, now: u64) -> (due: Result<u128, ContractError>)
        requires
            self.wf(),
        ensures
            due == refund_due(self@, donor@, now),
    {
        match self.project.effective_status(now) {
            ProjectStatus::Active => Err(ContractError::ProjectStillActive),
            ProjectStatus::Failed => {
                let held = donation_of(&self.donations, donor);
                if held == 0 {
                    Err(ContractError::NoFundsToRefund)
                } else {
                    Ok(held)
                }
            },
            _ => Err(ContractError::ProjectSuccessful),
        }
    }

    /// Books a refund that is due after it was paid, and returns its amount.
    pub(crate) fn repay(&mut self, donor: &Address, now: u64) -> (amount: u128)
        requires
            old(self).wf(),
            refund_due(old(self)@, donor@, now).is_ok(),
        ensures
            final(self)@ == repaid(old(self)@, donor@),
            final(self).wf(),
            Ok::<u128, ContractError>(amount) == refund_due(old(self)@, donor@, now),
    {
        proof {
            lemma_repaid_wf(self@, donor@, now);
            lemma_total_bounds(self@.donations, donor_slot(self@.donations, donor@));
        }
        let amount = clear_donation(&mut self.donations, donor);
        self.refunded = self.refunded + amount;
        self.project.status = ProjectStatus::Failed;
        self.project.claimed = true;
        amount
    }
}

} // verus!
