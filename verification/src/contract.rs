//! The escrow ledger: the registry of projects and the operations that
//! callers invoke on it.

use vstd::prelude::*;
use crate::errors::ContractError;
use crate::ledger::{active_donors, donated, donation_of, positive_donors};
use crate::lifecycle::{
    claim_due, entry_wf, fresh_entry, fund_refusal, funded, lapsed, refund_due, repaid, settled,
    status_at,
};
use crate::storage_types::{Address, EntryView, Project, ProjectEntry, ProjectStatus};

verus! {

/// The mathematical value of a list of entries: the value of each, in order.
pub open spec fn entries_view(es: Seq<ProjectEntry>) -> Seq<EntryView> {
    es.map_values(|e: ProjectEntry| e@)
}

/// Whether the ledger holds a project with identifier `id`.
pub open spec fn has_project(l: Seq<EntryView>, id: Seq<char>) -> bool {
    exists|i: int| 0 <= i < l.len() && (#[trigger] l[i]).id == id
}

/// The place of the project with identifier `id`, where the ledger holds one.
pub open spec fn project_slot(l: Seq<EntryView>, id: Seq<char>) -> int {
    choose|i: int| 0 <= i < l.len() && (#[trigger] l[i]).id == id
}

/// The entry of the project with identifier `id`, where the ledger holds one.
pub open spec fn entry_of(l: Seq<EntryView>, id: Seq<char>) -> EntryView {
    l[project_slot(l, id)]
}

/// No identifier names two projects.
pub open spec fn distinct_ids(l: Seq<EntryView>) -> bool {
    forall|i: int, j: int| 0 <= i < j < l.len() ==> (#[trigger] l[i]).id != (#[trigger] l[j]).id
}

/// The validity of a ledger: identifiers are unique and every entry is valid.
pub open spec fn ledger_wf(l: Seq<EntryView>) -> bool {
    &&& distinct_ids(l)
    &&& forall|i: int| 0 <= i < l.len() ==> entry_wf(#[trigger] l[i])
}

/// Why the creation of a project is refused, if it is. The caller's proof of
/// identity comes first, then the goal, then the registry.
pub open spec fn create_refusal(
    l: Seq<EntryView>,
    id: Seq<char>,
    goal: u128,
    authenticated: bool,
) -> Option<ContractError> {
    if !authenticated {
        Some(ContractError::NotAuthorized)
    } else if goal == 0 {
        Some(ContractError::AmountCannotBeZero)
    } else if has_project(l, id) {
        Some(ContractError::DuplicateProject)
    } else {
        None
    }
}

/// The transfer that a donation asks for, from the donor into escrow, or why
/// the donation is refused. The donor's proof of identity comes first, then
/// the amount, then the registry.
pub open spec fn fund_due(
    l: Seq<EntryView>,
    id: Seq<char>,
    amount: u128,
    now: u64,
    authenticated: bool,
) -> Result<u128, ContractError> {
    if !authenticated {
        Err(ContractError::NotAuthorized)
    } else if amount == 0 {
        Err(ContractError::AmountCannotBeZero)
    } else if !has_project(l, id) {
        Err(ContractError::ProjectNotFound)
    } else {
        match fund_refusal(entry_of(l, id), amount, now) {
            Some(e) => Err(e),
            None => Ok(amount),
        }
    }
}

/// What a donation returns, given whether its transfer was acknowledged: the
/// donor's new cumulative amount, or the refusal, or the failed transfer.
pub open spec fn fund_outcome(
    l: Seq<EntryView>,
    id: Seq<char>,
    donor: Seq<char>,
    amount: u128,
    now: u64,
    authenticated: bool,
    acknowledged: bool,
) -> Result<u128, ContractError> {
    match fund_due(l, id, amount, now, authenticated) {
        Err(e) => Err(e),
        Ok(_) => if acknowledged {
            Ok((donated(entry_of(l, id).donations, donor) + amount) as u128)
        } else {
            Err(ContractError::TransferFailed)
        },
    }
}

/// The ledger after a donation: changed in the one entry where the donation
/// succeeded, and untouched where it did not.
pub open spec fn after_fund(
    l: Seq<EntryView>,
    id: Seq<char>,
    donor: Seq<char>,
    amount: u128,
    now: u64,
    authenticated: bool,
    acknowledged: bool,
) -> Seq<EntryView> {
    if fund_outcome(l, id, donor, amount, now, authenticated, acknowledged).is_ok() {
        l.update(project_slot(l, id), funded(entry_of(l, id), donor, amount, now))
    } else {
        l
    }
}

/// The transfer that a claim asks for, from escrow to the creator, or why the
/// claim is refused. The caller's proof of identity comes first.
pub open spec fn claim_due_in(
    l: Seq<EntryView>,
    id: Seq<char>,
    caller: Seq<char>,
    now: u64,
    authenticated: bool,
) -> Result<u128, ContractError> {
    if !authenticated {
        Err(ContractError::NotAuthorized)
    } else if !has_project(l, id) {
        Err(ContractError::ProjectNotFound)
    } else {
        claim_due(entry_of(l, id), caller, now)
    }
}

/// The transfer that a refund asks for, from escrow to the donor, or why the
/// refund is refused. The donor's proof of identity comes first.
pub open spec fn refund_due_in(
    l: Seq<EntryView>,
    id: Seq<char>,
    donor: Seq<char>,
    now: u64,
    authenticated: bool,
) -> Result<u128, ContractError> {
    if !authenticated {
        Err(ContractError::NotAuthorized)
    } else if !has_project(l, id) {
        Err(ContractError::ProjectNotFound)
    } else {
        refund_due(entry_of(l, id), donor, now)
    }
}

/// What a settlement returns, given what was due and whether its transfer was
/// acknowledged: the amount transferred, or the refusal, or the failed transfer.
pub open spec fn settlement_outcome(due: Result<u128, ContractError>, acknowledged: bool) -> Result<
    u128,
    ContractError,
> {
    match due {
        Err(e) => Err(e),
        Ok(amount) => if acknowledged {
            Ok(amount)
        } else {
            Err(ContractError::TransferFailed)
        },
    }
}

/// The ledger after a claim: the project is completed where the claim
/// succeeded, and nothing has changed where it did not.
pub open spec fn after_claim(
    l: Seq<EntryView>,
    id: Seq<char>,
    caller: Seq<char>,
    now: u64,
    authenticated: bool,
    acknowledged: bool,
) -> Seq<EntryView> {
    if settlement_outcome(claim_due_in(l, id, caller, now, authenticated), acknowledged).is_ok() {
        l.update(project_slot(l, id), settled(entry_of(l, id)))
    } else {
        l
    }
}

/// The ledger after a refund: the donor is paid back where the refund
/// succeeded, and nothing has changed where it did not.
pub open spec fn after_refund(
    l: Seq<EntryView>,
    id: Seq<char>,
    donor: Seq<char>,
    now: u64,
    authenticated: bool,
    acknowledged: bool,
) -> Seq<EntryView> {
    if settlement_outcome(refund_due_in(l, id, donor, now, authenticated), acknowledged).is_ok() {
        l.update(project_slot(l, id), repaid(entry_of(l, id), donor))
    } else {
        l
    }
}

/// With unique identifiers, a project with identifier `id` found at `i` is at its slot.
pub proof fn lemma_project_slot_unique(l: Seq<EntryView>, id: Seq<char>, i: int)
    requires
        distinct_ids(l),
        0 <= i < l.len(),
        l[i].id == id,
    ensures
        has_project(l, id),
        project_slot(l, id) == i,
{
    let j = project_slot(l, id);
    assert(0 <= j < l.len() && l[j].id == id);
    if j < i {
        assert(l[j].id != l[i].id);
    } else if i < j {
        assert(l[i].id != l[j].id);
    }
}

/// Replacing a valid ledger's entry by a valid one with the same identifier
/// keeps the ledger valid.
pub proof fn lemma_update_wf(l: Seq<EntryView>, i: int, e: EntryView)
    requires
        ledger_wf(l),
        0 <= i < l.len(),
        entry_wf(e),
        e.id == l[i].id,
    ensures
        ledger_wf(l.update(i, e)),
{
    let after = l.update(i, e);
    assert forall|a: int, b: int| 0 <= a < b < after.len() implies (#[trigger] after[a]).id != (
    #[trigger] after[b]).id by {
        assert(l[a].id != l[b].id);
    }
    assert forall|a: int| 0 <= a < after.len() implies entry_wf(#[trigger] after[a]) by {
        if a != i {
            assert(entry_wf(l[a]));
        }
    }
}

/// The escrow ledger: every project with its donation ledger.
#[derive(Debug)]
pub struct CrowdfundingContract {
    entries: Vec<ProjectEntry>,
}

impl View for CrowdfundingContract {
    type V = Seq<EntryView>;

    closed spec fn view(&self) -> Seq<EntryView> {
        entries_view(self.entries@)
    }
}

impl CrowdfundingContract {
    /// Whether the ledger is valid. Every operation keeps it so.
    pub open spec fn wf(&self) -> bool {
        ledger_wf(self@)
    }

    /// The ledger with no project.
    pub fn new() -> (ledger: Self)
        ensures
            ledger@ == Seq::<EntryView>::empty(),
            ledger.wf(),
    {
        let ledger = CrowdfundingContract { entries: Vec::new() };
        assert(ledger@ =~= Seq::<EntryView>::empty());
        ledger
    }

    /// Takes up a ledger from stored entries; `None` where they do not make a
    /// valid ledger: an entry is not valid, or two share an identifier.
    pub fn restore(entries: Vec<ProjectEntry>) -> (ledger: Option<Self>)
        ensures
            match ledger {
                Some(l) => l.wf() && l@ == entries_view(entries@),
                None => !ledger_wf(entries_view(entries@)),
            },
    {
        let ghost l = entries_view(entries@);
        let mut j: usize = 0;
        while j < entries.len()
            invariant
                j <= entries.len(),
                l == entries_view(entries@),
                forall|a: int| 0 <= a < j ==> entry_wf(#[trigger] l[a]),
                forall|a: int, b: int| 0 <= a < b < j ==> (#[trigger] l[a]).id != (#[trigger] l[b]).id,
            decreases entries.len() - j,
        {
            if !entries[j].is_valid() {
                assert(!entry_wf(l[j as int]));
                return None;
            }
            let mut i: usize = 0;
            while i < j
                invariant
                    i <= j,
                    j < entries.len(),
                    l == entries_view(entries@),
                    forall|a: int| 0 <= a < i ==> (#[trigger] l[a]).id != l[j as int].id,
                decreases j - i,
            {
                if entries[i].id == entries[j].id {
                    assert(l[i as int].id == l[j as int].id);
                    return None;
                }
                i += 1;
            }
            j += 1;
        }
        Some(CrowdfundingContract { entries })
    }

    /// The stored entries, one for each project, in the order of creation.
    pub fn entries(&self) -> (entries: &Vec<ProjectEntry>)
        ensures
            entries_view(entries@) == self@,
    {
        &self.entries
    }

    /// Finds the entry of the project with identifier `project_id`.
    fn find_project(&self, project_id: &String) -> (found: Option<usize>)
        requires
            self.wf(),
        ensures
            match found {
                Some(i) => i < self.entries.len() && has_project(self@, project_id@)
                    && project_slot(self@, project_id@) == i,
                None => !has_project(self@, project_id@),
            },
    {
        let mut i: usize = 0;
        while i < self.entries.len()
            invariant
                i <= self.entries.len(),
                self.wf(),
                forall|k: int| 0 <= k < i ==> (#[trigger] self.entries[k]).id@ != project_id@,
            decreases self.entries.len() - i,
        {
            if self.entries[i].id == *project_id {
                proof {
                    lemma_project_slot_unique(self@, project_id@, i as int);
                }
                return Some(i);
            }
            i += 1;
        }
        proof {
            let l = self@;
            assert forall|k: int| 0 <= k < l.len() implies (#[trigger] l[k]).id != project_id@ by {
                assert(self.entries[k].id@ != project_id@);
            }
        }
        None
    }

    /// Registers a new project, active and with nothing raised, and returns
    /// its identifier. `authenticated` says whether the caller proved to be
    /// `creator`; without that proof the call is refused with
    /// `NotAuthorized`. A zero goal is refused with `AmountCannotBeZero`, an
    /// identifier already in use with `DuplicateProject`.
    pub fn create_project(
        &mut self,
        project_id: String,
        creator: Address,
        goal: u128,
        deadline: u64,
        description: String,
        authenticated: bool,
    ) -> (result: Result<String, ContractError>)
        requires
            old(self).wf(),
        ensures
            final(self).wf(),
            match create_refusal(old(self)@, project_id@, goal, authenticated) {
                Some(e) => result == Err::<String, ContractError>(e) && final(self)@ == old(self)@,
                None => result.is_ok() && result.unwrap()@ == project_id@ && final(self)@ == old(
                    self,
                )@.push(fresh_entry(project_id@, creator@, goal, deadline, description@)),
            },
    {
        if !authenticated {
            return Err(ContractError::NotAuthorized);
        }
        if goal == 0 {
            return Err(ContractError::AmountCannotBeZero);
        }
        if self.find_project(&project_id).is_some() {
            return Err(ContractError::DuplicateProject);
        }
        let returned = project_id.clone();
        let entry = ProjectEntry::new(project_id, creator, goal, deadline, description);
        let ghost before = self@;
        self.entries.push(entry);
        proof {
            let after = self@;
            assert(after =~= before.push(entry@));
            assert forall|a: int, b: int| 0 <= a < b < after.len() implies (#[trigger] after[a]).id
                != (#[trigger] after[b]).id by {
                if b < before.len() {
                    assert(before[a].id != before[b].id);
                } else {
                    assert(before[a].id != project_id@);
                }
            }
            assert forall|a: int| 0 <= a < after.len() implies entry_wf(#[trigger] after[a]) by {
                if a < before.len() {
                    assert(entry_wf(before[a]));
                }
            }
        }
        Ok(returned)
    }

    /// Returns a snapshot of the project with identifier `project_id`, or
    /// `ProjectNotFound`. Reading changes nothing.
    pub fn get_project_by_id(&self, project_id: &String) -> (result: Result<Project, ContractError>)
        requires
            self.wf(),
        ensures
            match result {
                Ok(project) => has_project(self@, project_id@) && project@ == entry_of(
                    self@,
                    project_id@,
                ).project,
                Err(e) => e == ContractError::ProjectNotFound && !has_project(self@, project_id@),
            },
    {
        match self.find_project(project_id) {
            Some(i) => Ok(self.entries[i].project.clone()),
            None => Err(ContractError::ProjectNotFound),
        }
    }

    /// Returns what the ledger holds for `donor` in a project, zero where
    /// they never gave or were paid back, or `ProjectNotFound`.
    pub fn donation_of(&self, project_id: &String, donor: &Address) -> (result: Result<
        u128,
        ContractError,
    >)
        requires
            self.wf(),
        ensures
            result == (if has_project(self@, project_id@) {
                Ok::<u128, ContractError>(donated(entry_of(self@, project_id@).donations, donor@))
            } else {
                Err::<u128, ContractError>(ContractError::ProjectNotFound)
            }),
    {
        match self.find_project(project_id) {
            Some(i) => {
                assert(entry_wf(self@[i as int]));
                Ok(donation_of(&self.entries[i].donations, donor))
            },
            None => Err(ContractError::ProjectNotFound),
        }
    }

    /// Returns the donors that hold a positive amount in a project, in the
    /// order of their first donation, or `ProjectNotFound`.
    pub fn donors_of(&self, project_id: &String) -> (result: Result<Vec<Address>, ContractError>)
        requires
            self.wf(),
        ensures
            match result {
                Ok(donors) => has_project(self@, project_id@) && donors@.map_values(
                    |a: Address| a@,
                ) == positive_donors(entry_of(self@, project_id@).donations),
                Err(e) => e == ContractError::ProjectNotFound && !has_project(self@, project_id@),
            },
    {
        match self.find_project(project_id) {
            Some(i) => Ok(active_donors(&self.entries[i].donations)),
            None => Err(ContractError::ProjectNotFound),
        }
    }

    /// Stores the failure of a project whose deadline has passed at time
    /// `now` short of its goal, and returns the status that counts from now
    /// on, or `ProjectNotFound`. Any other project stays as it is.
    pub fn update_status(&mut self, project_id: &String, now: u64) -> (result: Result<
        ProjectStatus,
        ContractError,
    >)
        requires
            old(self).wf(),
        ensures
            final(self).wf(),
            result == (if has_project(old(self)@, project_id@) {
                Ok::<ProjectStatus, ContractError>(
                    status_at(entry_of(old(self)@, project_id@).project, now),
                )
            } else {
                Err::<ProjectStatus, ContractError>(ContractError::ProjectNotFound)
            }),
            final(self)@ == (if has_project(old(self)@, project_id@) {
                old(self)@.update(
                    project_slot(old(self)@, project_id@),
                    lapsed(entry_of(old(self)@, project_id@), now),
                )
            } else {
                old(self)@
            }),
    {
        match self.find_project(project_id) {
            None => Err(ContractError::ProjectNotFound),
            Some(i) => {
                let ghost before = self@;
                assert(entry_wf(before[i as int]));
                let mut entry = self.entries.remove(i);
                let status = entry.settle_status(now);
                self.entries.insert(i, entry);
                proof {
                    assert(self@ =~= before.update(i as int, entry@));
                    lemma_update_wf(before, i as int, entry@);
                }
                Ok(status)
            },
        }
    }

    /// Says which transfer a donation of `amount` at time `now` asks for, from
    /// the donor into escrow, or why the donation is refused.
    pub fn check_fund(
        &self,
        project_id: &String,
        amount: u128,
        now: u64,
        authenticated: bool,
    ) -> (due: Result<u128, ContractError>)
        requires
            self.wf(),
        ensures
            due == fund_due(self@, project_id@, amount, now, authenticated),
    {
        if !authenticated {
            return Err(ContractError::NotAuthorized);
        }
        if amount == 0 {
            return Err(ContractError::AmountCannotBeZero);
        }
        match self.find_project(project_id) {
            None => Err(ContractError::ProjectNotFound),
            Some(i) => {
                assert(entry_wf(self@[i as int]));
                match self.entries[i].check_fund(amount, now) {
                    Some(e) => Err(e),
                    None => Ok(amount),
                }
            },
        }
    }

    /// Records a donation of `amount` by `donor` at time `now`, given whether
    /// the donor proved their identity and whether the transfer that
    /// [`Self::check_fund`] asked for was acknowledged, and returns the
    /// donor's new cumulative amount. The donor's record, the
    /// donor set and the amount raised change together or not at all: a
    /// refused donation or a failed transfer leaves the ledger as it was.
    pub fn fund_project(
        &mut self,
        project_id: &String,
        donor: &Address,
        amount: u128,
        now: u64,
        authenticated: bool,
        transfer_acknowledged: bool,
    ) -> (result: Result<u128, ContractError>)
        requires
            old(self).wf(),
        ensures
            final(self).wf(),
            result == fund_outcome(
                old(self)@,
                project_id@,
                donor@,
                amount,
                now,
                authenticated,
                transfer_acknowledged,
            ),
            final(self)@ == after_fund(
                old(self)@,
                project_id@,
                donor@,
                amount,
                now,
                authenticated,
                transfer_acknowledged,
            ),
    {
        match self.check_fund(project_id, amount, now, authenticated) {
            Err(e) => Err(e),
            Ok(_) => {
                if !transfer_acknowledged {
                    return Err(ContractError::TransferFailed);
                }
                let found = self.find_project(project_id);
                let i = found.unwrap();
                let ghost before = self@;
                assert(entry_wf(before[i as int]));
                let mut entry = self.entries.remove(i);
                let total = entry.fund(donor, amount, now);
                self.entries.insert(i, entry);
                proof {
                    assert(self@ =~= before.update(i as int, entry@));
                    lemma_update_wf(before, i as int, entry@);
                }
                Ok(total)
            },
        }
    }

    /// Says which transfer a claim by `caller` at time `now` asks for, from
    /// escrow to the creator, or why the claim is refused.
    pub fn check_claim(
        &self,
        project_id: &String,
        caller: &Address,
        now: u64,
        authenticated: bool,
    ) -> (due: Result<u128, ContractError>)
        requires
            self.wf(),
        ensures
            due == claim_due_in(self@, project_id@, caller@, now, authenticated),
    {
        if !authenticated {
            return Err(ContractError::NotAuthorized);
        }
        match self.find_project(project_id) {
            None => Err(ContractError::ProjectNotFound),
            Some(i) => self.entries[i].check_claim(caller, now),
        }
    }

    /// Settles a successful project, given whether the caller proved their
    /// identity and whether the transfer that [`Self::check_claim`] asked for
    /// was acknowledged, and returns the amount transferred. Only an acknowledged transfer completes the
    /// project: a refused claim or a failed transfer leaves the ledger as it
    /// was, so that the claim can be tried again.
    pub fn claim_funds(
        &mut self,
        project_id: &String,
        caller: &Address,
        now: u64,
        authenticated: bool,
        transfer_acknowledged: bool,
    ) -> (result: Result<u128, ContractError>)
        requires
            old(self).wf(),
        ensures
            final(self).wf(),
            result == settlement_outcome(
                claim_due_in(old(self)@, project_id@, caller@, now, authenticated),
                transfer_acknowledged,
            ),
            final(self)@ == after_claim(
                old(self)@,
                project_id@,
                caller@,
                now,
                authenticated,
                transfer_acknowledged,
            ),
    {
        match self.check_claim(project_id, caller, now, authenticated) {
            Err(e) => Err(e),
            Ok(amount) => {
                if !transfer_acknowledged {
                    return Err(ContractError::TransferFailed);
                }
                let found = self.find_project(project_id);
                let i = found.unwrap();
                let ghost before = self@;
                assert(entry_wf(before[i as int]));
                let mut entry = self.entries.remove(i);
                entry.settle();
                self.entries.insert(i, entry);
                proof {
                    assert(self@ =~= before.update(i as int, entry@));
                    lemma_update_wf(before, i as int, entry@);
                }
                Ok(amount)
            },
        }
    }

    /// Says which transfer a refund to `donor` at time `now` asks for, from
    /// escrow to the donor, or why the refund is refused.
    pub fn check_refund(
        &self,
        project_id: &String,
        donor: &Address,
        now: u64,
        authenticated: bool,
    ) -> (due: Result<u128, ContractError>)
        requires
            self.wf(),
        ensures
            due == refund_due_in(self@, project_id@, donor@, now, authenticated),
    {
        if !authenticated {
            return Err(ContractError::NotAuthorized);
        }
        match self.find_project(project_id) {
            None => Err(ContractError::ProjectNotFound),
            Some(i) => {
                assert(entry_wf(self@[i as int]));
                self.entries[i].check_refund(donor, now)
            },
        }
    }

    /// Pays `donor` back from a failed project, given whether the donor
    /// proved their identity and whether the transfer that
    /// [`Self::check_refund`] asked for was acknowledged, and returns the
    /// amount transferred. Only an acknowledged transfer zeroes the
    /// donor's record and stores the failure: a refused refund or a failed
    /// transfer leaves the ledger as it was.
    pub fn refund(
        &mut self,
        project_id: &String,
        donor: &Address,
        now: u64,
        authenticated: bool,
        transfer_acknowledged: bool,
    ) -> (result: Result<u128, ContractError>)
        requires
            old(self).wf(),
        ensures
            final(self).wf(),
            result == settlement_outcome(
                refund_due_in(old(self)@, project_id@, donor@, now, authenticated),
                transfer_acknowledged,
            ),
            final(self)@ == after_refund(
                old(self)@,
                project_id@,
                donor@,
                now,
                authenticated,
                transfer_acknowledged,
            ),
    {
        match self.check_refund(project_id, donor, now, authenticated) {
            Err(e) => Err(e),
            Ok(_) => {
                if !transfer_acknowledged {
                    return Err(ContractError::TransferFailed);
                }
                let found = self.find_project(project_id);
                let i = found.unwrap();
                let ghost before = self@;
                assert(entry_wf(before[i as int]));
                let mut entry = self.entries.remove(i);
                let amount = entry.repay(donor, now);
                self.entries.insert(i, entry);
                proof {
                    assert(self@ =~= before.update(i as int, entry@));
                    lemma_update_wf(before, i as int, entry@);
                }
                Ok(amount)
            },
        }
    }
}

} // verus!
