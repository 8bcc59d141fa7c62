//! What holds of the ledger's operations, whatever the inputs: each law is
//! stated over the functions that the operations' own contracts use.

use vstd::prelude::*;
use crate::contract::{
    after_claim, after_fund, after_refund, claim_due_in, entry_of, fund_outcome, has_project,
    ledger_wf, lemma_project_slot_unique, lemma_update_wf, project_slot, refund_due_in,
    settlement_outcome,
};
use crate::errors::ContractError;
use crate::ledger::{donated, ledger_total, lemma_cleared, lemma_credited};
use crate::lifecycle::{
    entry_wf, funded, lemma_funded_wf, lemma_repaid_wf, repaid, settled, status_at,
};
use crate::storage_types::{EntryView, ProjectStatus};

verus! {

/// One donation: who gave, how much and when.
pub struct Pledge {
    pub donor: Seq<char>,
    pub amount: u128,
    pub now: u64,
}

/// The sum of the amounts of a sequence of donations.
pub open spec fn total_pledged(pledges: Seq<Pledge>) -> int
    decreases pledges.len(),
{
    if pledges.len() == 0 {
        0
    } else {
        total_pledged(pledges.drop_last()) + pledges.last().amount
    }
}

/// The ledger after a sequence of donations to one project, each by an
/// authenticated donor and with its transfer acknowledged; `None` where one
/// of them does not succeed.
pub open spec fn fund_run(l: Seq<EntryView>, id: Seq<char>, pledges: Seq<Pledge>) -> Option<
    Seq<EntryView>,
>
    decreases pledges.len(),
{
    if pledges.len() == 0 {
        Some(l)
    } else {
        match fund_run(l, id, pledges.drop_last()) {
            None => None,
            Some(m) => {
                let p = pledges.last();
                if fund_outcome(m, id, p.donor, p.amount, p.now, true, true).is_ok() {
                    Some(after_fund(m, id, p.donor, p.amount, p.now, true, true))
                } else {
                    None
                }
            },
        }
    }
}

/// Replacing the entry of project `id` in a valid ledger by a valid entry
/// with the same identifier gives a valid ledger in which `id` names the new
/// entry, at the same place.
pub proof fn lemma_entry_replaced(l: Seq<EntryView>, id: Seq<char>, e: EntryView)
    requires
        ledger_wf(l),
        has_project(l, id),
        entry_wf(e),
        e.id == id,
    ensures
        ledger_wf(l.update(project_slot(l, id), e)),
        has_project(l.update(project_slot(l, id), e), id),
        project_slot(l.update(project_slot(l, id), e), id) == project_slot(l, id),
        entry_of(l.update(project_slot(l, id), e), id) == e,
{
    let i = project_slot(l, id);
    lemma_update_wf(l, i, e);
    lemma_project_slot_unique(l.update(i, e), id, i);
}

/// A donation succeeds only for an authenticated donor whose transfer was
/// acknowledged; it then changes exactly the entry of its project, to the
/// funded entry, and keeps the ledger valid.
pub proof fn lemma_fund_step(
    l: Seq<EntryView>,
    id: Seq<char>,
    donor: Seq<char>,
    amount: u128,
    now: u64,
    authenticated: bool,
    acknowledged: bool,
)
    requires
        ledger_wf(l),
        fund_outcome(l, id, donor, amount, now, authenticated, acknowledged).is_ok(),
    ensures
        authenticated && acknowledged,
        has_project(l, id),
        entry_wf(entry_of(l, id)),
        ledger_wf(after_fund(l, id, donor, amount, now, authenticated, acknowledged)),
        has_project(after_fund(l, id, donor, amount, now, authenticated, acknowledged), id),
        entry_of(after_fund(l, id, donor, amount, now, authenticated, acknowledged), id) == funded(
            entry_of(l, id),
            donor,
            amount,
            now,
        ),
{
    lemma_funded_wf(entry_of(l, id), donor, amount, now);
    lemma_entry_replaced(l, id, funded(entry_of(l, id), donor, amount, now));
}

/// Conservation. After any sequence of successful donations to a project,
/// what the project has raised has grown by exactly the sum of the amounts
/// given, and so has the sum of its donation records: the amount raised is
/// still the sum of the records plus what was refunded, which stays zero
/// while the project has not failed.
pub proof fn law_conservation(l: Seq<EntryView>, id: Seq<char>, pledges: Seq<Pledge>)
    requires
        ledger_wf(l),
        has_project(l, id),
        fund_run(l, id, pledges).is_some(),
    ensures
        ledger_wf(fund_run(l, id, pledges).unwrap()),
        has_project(fund_run(l, id, pledges).unwrap(), id),
        entry_of(fund_run(l, id, pledges).unwrap(), id).project.raised == entry_of(
            l,
            id,
        ).project.raised + total_pledged(pledges),
        ledger_total(entry_of(fund_run(l, id, pledges).unwrap(), id).donations) == ledger_total(
            entry_of(l, id).donations,
        ) + total_pledged(pledges),
        entry_of(fund_run(l, id, pledges).unwrap(), id).refunded == entry_of(l, id).refunded,
        entry_of(l, id).refunded == 0 ==> entry_of(
            fund_run(l, id, pledges).unwrap(),
            id,
        ).project.raised == ledger_total(entry_of(fund_run(l, id, pledges).unwrap(), id).donations),
    decreases pledges.len(),
{
    assert(entry_wf(entry_of(l, id)));
    if pledges.len() > 0 {
        let m = fund_run(l, id, pledges.drop_last()).unwrap();
        let p = pledges.last();
        law_conservation(l, id, pledges.drop_last());
        lemma_fund_step(m, id, p.donor, p.amount, p.now, true, true);
        lemma_credited(entry_of(m, id).donations, p.donor, p.amount, p.now);
    }
}

/// Goal threshold. A successful donation moves a project from active to
/// goal-reached exactly when it carries the amount raised from below the goal
/// to the goal or beyond; a project that had reached its goal stays so; and
/// after the donation the project is active below its goal and goal-reached
/// from the goal on, so the transition cannot fire early.
pub proof fn law_goal_threshold(
    l: Seq<EntryView>,
    id: Seq<char>,
    donor: Seq<char>,
    amount: u128,
    now: u64,
    authenticated: bool,
    acknowledged: bool,
)
    requires
        ledger_wf(l),
        fund_outcome(l, id, donor, amount, now, authenticated, acknowledged).is_ok(),
    ensures
        ({
            let before = entry_of(l, id).project;
            let after = entry_of(
                after_fund(l, id, donor, amount, now, authenticated, acknowledged),
                id,
            ).project;
            &&& after.raised == before.raised + amount
            &&& after.goal == before.goal
            &&& (before.status == ProjectStatus::Active && after.status
                == ProjectStatus::GoalReached) <==> (before.raised < before.goal <= after.raised)
            &&& before.status == ProjectStatus::GoalReached ==> after.status
                == ProjectStatus::GoalReached
            &&& after.status == (if after.raised < after.goal {
                ProjectStatus::Active
            } else {
                ProjectStatus::GoalReached
            })
        }),
{
    lemma_fund_step(l, id, donor, amount, now, authenticated, acknowledged);
}

/// A run of donations that succeeds as a whole succeeds up to every point.
pub proof fn lemma_fund_run_prefix(l: Seq<EntryView>, id: Seq<char>, pledges: Seq<Pledge>, k: int)
    requires
        fund_run(l, id, pledges).is_some(),
        0 <= k <= pledges.len(),
    ensures
        fund_run(l, id, pledges.take(k)).is_some(),
    decreases pledges.len(),
{
    if k == pledges.len() {
        assert(pledges.take(k) =~= pledges);
    } else {
        lemma_fund_run_prefix(l, id, pledges.drop_last(), k);
        assert(pledges.drop_last().take(k) =~= pledges.take(k));
    }
}

/// After a run of successful donations to a project that was active, the
/// goal is what it was, and the project is active below it and goal-reached
/// from it on.
pub proof fn lemma_fund_run_status(l: Seq<EntryView>, id: Seq<char>, pledges: Seq<Pledge>)
    requires
        ledger_wf(l),
        has_project(l, id),
        entry_of(l, id).project.status == ProjectStatus::Active,
        fund_run(l, id, pledges).is_some(),
    ensures
        ({
            let before = entry_of(l, id).project;
            let after = entry_of(fund_run(l, id, pledges).unwrap(), id).project;
            &&& after.goal == before.goal
            &&& after.status == (if after.raised < after.goal {
                ProjectStatus::Active
            } else {
                ProjectStatus::GoalReached
            })
        }),
    decreases pledges.len(),
{
    assert(entry_wf(entry_of(l, id)));
    if pledges.len() > 0 {
        let m = fund_run(l, id, pledges.drop_last()).unwrap();
        let p = pledges.last();
        law_conservation(l, id, pledges.drop_last());
        lemma_fund_run_status(l, id, pledges.drop_last());
        law_goal_threshold(m, id, p.donor, p.amount, p.now, true, true);
    }
}

/// Reached once. Along a run of successful donations to a project that was
/// active, the amount raised never falls, and at every point the project is
/// active below its goal and goal-reached from it on: the goal is reached at
/// the first donation that carries the amount raised to it, not before, and
/// the project stays goal-reached through every donation after that.
pub proof fn law_goal_reached_once(
    l: Seq<EntryView>,
    id: Seq<char>,
    pledges: Seq<Pledge>,
    i: int,
    j: int,
)
    requires
        ledger_wf(l),
        has_project(l, id),
        entry_of(l, id).project.status == ProjectStatus::Active,
        fund_run(l, id, pledges).is_some(),
        0 <= i <= j <= pledges.len(),
    ensures
        fund_run(l, id, pledges.take(i)).is_some(),
        fund_run(l, id, pledges.take(j)).is_some(),
        ({
            let earlier = entry_of(fund_run(l, id, pledges.take(i)).unwrap(), id).project;
            let later = entry_of(fund_run(l, id, pledges.take(j)).unwrap(), id).project;
            &&& earlier.goal == later.goal
            &&& earlier.raised <= later.raised
            &&& earlier.status == (if earlier.raised < earlier.goal {
                ProjectStatus::Active
            } else {
                ProjectStatus::GoalReached
            })
            &&& later.status == (if later.raised < later.goal {
                ProjectStatus::Active
            } else {
                ProjectStatus::GoalReached
            })
            &&& earlier.status == ProjectStatus::GoalReached ==> later.status
                == ProjectStatus::GoalReached
        }),
    decreases j - i,
{
    lemma_fund_run_prefix(l, id, pledges, i);
    lemma_fund_run_prefix(l, id, pledges, j);
    lemma_fund_run_status(l, id, pledges.take(i));
    lemma_fund_run_status(l, id, pledges.take(j));
    if i < j {
        law_goal_reached_once(l, id, pledges, i, j - 1);
        let m = fund_run(l, id, pledges.take(j - 1)).unwrap();
        let p = pledges.take(j).last();
        assert(pledges.take(j).drop_last() =~= pledges.take(j - 1));
        law_conservation(l, id, pledges.take(j - 1));
        law_goal_threshold(m, id, p.donor, p.amount, p.now, true, true);
    }
}

/// No way back. Whatever a donation, a claim or a refund does, a project that
/// was not active before is not active afterwards: once it has left that
/// status, it never returns, so the goal is reached at most once.
pub proof fn law_never_active_again(
    l: Seq<EntryView>,
    id: Seq<char>,
    who: Seq<char>,
    amount: u128,
    now: u64,
    authenticated: bool,
    acknowledged: bool,
)
    requires
        ledger_wf(l),
        has_project(l, id),
        entry_of(l, id).project.status != ProjectStatus::Active,
    ensures
        entry_of(
            after_fund(l, id, who, amount, now, authenticated, acknowledged),
            id,
        ).project.status != ProjectStatus::Active,
        entry_of(after_claim(l, id, who, now, authenticated, acknowledged), id).project.status
            != ProjectStatus::Active,
        entry_of(after_refund(l, id, who, now, authenticated, acknowledged), id).project.status
            != ProjectStatus::Active,
{
    let e = entry_of(l, id);
    assert(entry_wf(e));
    if fund_outcome(l, id, who, amount, now, authenticated, acknowledged).is_ok() {
        lemma_fund_step(l, id, who, amount, now, authenticated, acknowledged);
    }
    if settlement_outcome(claim_due_in(l, id, who, now, authenticated), acknowledged).is_ok() {
        lemma_entry_replaced(l, id, settled(e));
    }
    if settlement_outcome(refund_due_in(l, id, who, now, authenticated), acknowledged).is_ok() {
        lemma_repaid_wf(e, who, now);
        lemma_entry_replaced(l, id, repaid(e, who));
    }
}

/// No double settlement. A claim succeeds only for the authenticated creator
/// whose transfer was acknowledged, and pays out all that was raised. After
/// it the project is completed, and every later claim fails, whoever makes
/// it and whenever, leaving the ledger as it is: with `InvalidProjectStatus`
/// when it comes from the authenticated creator, with `NotAuthorized` else.
pub proof fn law_no_double_claim(
    l: Seq<EntryView>,
    id: Seq<char>,
    caller: Seq<char>,
    now: u64,
    authenticated: bool,
    acknowledged: bool,
    later_caller: Seq<char>,
    later: u64,
    later_authenticated: bool,
    later_acknowledged: bool,
)
    requires
        ledger_wf(l),
        settlement_outcome(claim_due_in(l, id, caller, now, authenticated), acknowledged).is_ok(),
    ensures
        ({
            let claimed = after_claim(l, id, caller, now, authenticated, acknowledged);
            let again = settlement_outcome(
                claim_due_in(claimed, id, later_caller, later, later_authenticated),
                later_acknowledged,
            );
            &&& authenticated && acknowledged && caller == entry_of(l, id).project.creator
            &&& settlement_outcome(
                claim_due_in(l, id, caller, now, authenticated),
                acknowledged,
            ) == Ok::<u128, ContractError>(entry_of(l, id).project.raised)
            &&& ledger_wf(claimed)
            &&& entry_of(claimed, id).project.status == ProjectStatus::Completed
            &&& again == Err::<u128, ContractError>(
                if later_authenticated && later_caller == caller {
                    ContractError::InvalidProjectStatus
                } else {
                    ContractError::NotAuthorized
                },
            )
            &&& after_claim(
                claimed,
                id,
                later_caller,
                later,
                later_authenticated,
                later_acknowledged,
            ) == claimed
        }),
{
    let e = entry_of(l, id);
    assert(entry_wf(e));
    lemma_entry_replaced(l, id, settled(e));
}

/// No refund without failure. For an authenticated donor, at a time when the
/// project counts as active a refund fails with `ProjectStillActive`; when
/// it has reached its goal or is completed, with `ProjectSuccessful`; when
/// it has failed and the donor holds nothing, with `NoFundsToRefund`. A
/// refund succeeds only on a failed project, for a donor who holds a
/// positive amount and whose transfer was acknowledged, and pays exactly
/// that amount. A failed refund leaves the ledger as it is.
pub proof fn law_refund_needs_failure(
    l: Seq<EntryView>,
    id: Seq<char>,
    donor: Seq<char>,
    now: u64,
    authenticated: bool,
    acknowledged: bool,
)
    requires
        ledger_wf(l),
        has_project(l, id),
    ensures
        ({
            let e = entry_of(l, id);
            let outcome = settlement_outcome(
                refund_due_in(l, id, donor, now, authenticated),
                acknowledged,
            );
            &&& !authenticated ==> outcome == Err::<u128, ContractError>(
                ContractError::NotAuthorized,
            )
            &&& authenticated && status_at(e.project, now) == ProjectStatus::Active ==> outcome
                == Err::<u128, ContractError>(ContractError::ProjectStillActive)
            &&& authenticated && (status_at(e.project, now) == ProjectStatus::GoalReached
                || status_at(e.project, now) == ProjectStatus::Completed) ==> outcome == Err::<
                u128,
                ContractError,
            >(ContractError::ProjectSuccessful)
            &&& authenticated && status_at(e.project, now) == ProjectStatus::Failed && donated(
                e.donations,
                donor,
            ) == 0 ==> outcome == Err::<u128, ContractError>(ContractError::NoFundsToRefund)
            &&& outcome.is_ok() ==> status_at(e.project, now) == ProjectStatus::Failed
                && authenticated && acknowledged && outcome == Ok::<u128, ContractError>(
                donated(e.donations, donor),
            ) && donated(e.donations, donor) > 0
            &&& outcome.is_err() ==> after_refund(l, id, donor, now, authenticated, acknowledged)
                == l
        }),
{
}

/// No double refund. After a successful refund the failure is stored, the
/// donor's record is zero, the amount raised is what it was, and every later
/// refund to the same authenticated donor fails with `NoFundsToRefund`.
pub proof fn law_no_double_refund(
    l: Seq<EntryView>,
    id: Seq<char>,
    donor: Seq<char>,
    now: u64,
    authenticated: bool,
    acknowledged: bool,
    later: u64,
    later_acknowledged: bool,
)
    requires
        ledger_wf(l),
        settlement_outcome(refund_due_in(l, id, donor, now, authenticated), acknowledged).is_ok(),
    ensures
        ({
            let paid = after_refund(l, id, donor, now, authenticated, acknowledged);
            &&& ledger_wf(paid)
            &&& entry_of(paid, id).project.status == ProjectStatus::Failed
            &&& donated(entry_of(paid, id).donations, donor) == 0
            &&& entry_of(paid, id).project.raised == entry_of(l, id).project.raised
            &&& settlement_outcome(
                refund_due_in(paid, id, donor, later, true),
                later_acknowledged,
            ) == Err::<u128, ContractError>(ContractError::NoFundsToRefund)
        }),
{
    let e = entry_of(l, id);
    assert(entry_wf(e));
    lemma_repaid_wf(e, donor, now);
    lemma_cleared(e.donations, donor);
    lemma_entry_replaced(l, id, repaid(e, donor));
}

/// Deadline enforcement. A donation of a positive amount by an authenticated
/// donor that comes after the deadline of an active project fails with
/// `ProjectFundingEnded`, and leaves the ledger, and so the amount raised, as
/// it is.
pub proof fn law_deadline_enforced(
    l: Seq<EntryView>,
    id: Seq<char>,
    donor: Seq<char>,
    amount: u128,
    now: u64,
    authenticated: bool,
    acknowledged: bool,
)
    requires
        ledger_wf(l),
        has_project(l, id),
        amount > 0,
        entry_of(l, id).project.status == ProjectStatus::Active,
        now > entry_of(l, id).project.deadline,
    ensures
        fund_outcome(l, id, donor, amount, now, authenticated, acknowledged) == Err::<
            u128,
            ContractError,
        >(
            if authenticated {
                ContractError::ProjectFundingEnded
            } else {
                ContractError::NotAuthorized
            },
        ),
        after_fund(l, id, donor, amount, now, authenticated, acknowledged) == l,
{
    assert(entry_wf(entry_of(l, id)));
}

/// All or nothing. An operation that fails, by refusal or by a transfer that
/// was not acknowledged, leaves the ledger as it is; and none succeeds
/// without the caller's proof of identity and an acknowledged transfer.
pub proof fn law_failure_changes_nothing(
    l: Seq<EntryView>,
    id: Seq<char>,
    who: Seq<char>,
    amount: u128,
    now: u64,
    authenticated: bool,
    acknowledged: bool,
)
    ensures
        ({
            let funded = fund_outcome(l, id, who, amount, now, authenticated, acknowledged);
            let claimed = settlement_outcome(
                claim_due_in(l, id, who, now, authenticated),
                acknowledged,
            );
            let refunded = settlement_outcome(
                refund_due_in(l, id, who, now, authenticated),
                acknowledged,
            );
            &&& funded.is_err() ==> after_fund(l, id, who, amount, now, authenticated, acknowledged)
                == l
            &&& claimed.is_err() ==> after_claim(l, id, who, now, authenticated, acknowledged) == l
            &&& refunded.is_err() ==> after_refund(l, id, who, now, authenticated, acknowledged)
                == l
            &&& !(authenticated && acknowledged) ==> funded.is_err() && claimed.is_err()
                && refunded.is_err()
        }),
{
}

} // verus!
