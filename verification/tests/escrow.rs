use crowdfunding::{Address, ContractError, CrowdfundingContract, ProjectStatus};

const T: u64 = 1_000;

fn who(key: &str) -> Address {
    Address::new(key.to_string())
}

fn id(text: &str) -> String {
    text.to_string()
}

fn ledger_with_project(goal: u128, deadline: u64) -> CrowdfundingContract {
    let mut ledger = CrowdfundingContract::new();
    let created = ledger.create_project(id("alpha"), who("creator"), goal, deadline, id("a well"), true);
    assert_eq!(created, Ok(id("alpha")));
    ledger
}

#[test]
fn create_project_starts_active_with_nothing_raised() {
    let ledger = ledger_with_project(100, T + 10);
    let project = ledger.get_project_by_id(&id("alpha")).unwrap();
    assert_eq!(project.creator.key, "creator");
    assert_eq!(project.goal, 100);
    assert_eq!(project.raised, 0);
    assert_eq!(project.deadline, T + 10);
    assert!(!project.claimed);
    assert_eq!(project.description, "a well");
    assert_eq!(project.status, ProjectStatus::Active);
    assert_eq!(ledger.donors_of(&id("alpha")).unwrap().len(), 0);
}

#[test]
fn create_project_refuses_zero_goal() {
    let mut ledger = CrowdfundingContract::new();
    let result = ledger.create_project(id("alpha"), who("creator"), 0, T, id(""), true);
    assert_eq!(result, Err(ContractError::AmountCannotBeZero));
    assert!(matches!(ledger.get_project_by_id(&id("alpha")), Err(ContractError::ProjectNotFound)));
}

#[test]
fn create_project_refuses_duplicate_identifier() {
    let mut ledger = ledger_with_project(100, T + 10);
    let again = ledger.create_project(id("alpha"), who("other"), 5, T, id("copy"), true);
    assert_eq!(again, Err(ContractError::DuplicateProject));
    let project = ledger.get_project_by_id(&id("alpha")).unwrap();
    assert_eq!(project.creator.key, "creator");
    assert_eq!(project.goal, 100);
}

#[test]
fn zero_goal_is_reported_before_duplicate() {
    let mut ledger = ledger_with_project(100, T + 10);
    let again = ledger.create_project(id("alpha"), who("creator"), 0, T, id(""), true);
    assert_eq!(again, Err(ContractError::AmountCannotBeZero));
}

#[test]
fn get_project_by_id_reports_missing_project() {
    let ledger = CrowdfundingContract::new();
    assert!(matches!(ledger.get_project_by_id(&id("nope")), Err(ContractError::ProjectNotFound)));
    assert_eq!(ledger.donation_of(&id("nope"), &who("A")), Err(ContractError::ProjectNotFound));
    assert!(matches!(ledger.donors_of(&id("nope")), Err(ContractError::ProjectNotFound)));
}

#[test]
fn fund_project_refuses_zero_amount_before_looking_up() {
    let mut ledger = CrowdfundingContract::new();
    let result = ledger.fund_project(&id("nope"), &who("A"), 0, T, true, true);
    assert_eq!(result, Err(ContractError::AmountCannotBeZero));
}

#[test]
fn fund_project_reports_missing_project() {
    let mut ledger = ledger_with_project(100, T + 10);
    let result = ledger.fund_project(&id("beta"), &who("A"), 5, T, true, true);
    assert_eq!(result, Err(ContractError::ProjectNotFound));
    assert_eq!(ledger.check_fund(&id("beta"), 5, T, true), Err(ContractError::ProjectNotFound));
}

#[test]
fn fund_project_returns_cumulative_total_of_the_donor() {
    let mut ledger = ledger_with_project(100, T + 10);
    assert_eq!(ledger.check_fund(&id("alpha"), 10, T, true), Ok(10));
    assert_eq!(ledger.fund_project(&id("alpha"), &who("A"), 10, T, true, true), Ok(10));
    assert_eq!(ledger.fund_project(&id("alpha"), &who("B"), 7, T + 1, true, true), Ok(7));
    assert_eq!(ledger.fund_project(&id("alpha"), &who("A"), 25, T + 2, true, true), Ok(35));
    assert_eq!(ledger.donation_of(&id("alpha"), &who("A")), Ok(35));
    assert_eq!(ledger.donation_of(&id("alpha"), &who("B")), Ok(7));
    assert_eq!(ledger.donation_of(&id("alpha"), &who("C")), Ok(0));
    assert_eq!(ledger.get_project_by_id(&id("alpha")).unwrap().raised, 42);
}

#[test]
fn raised_equals_sum_of_amounts_and_of_records() {
    let mut ledger = ledger_with_project(1_000, T + 10);
    let gifts: [(&str, u128); 5] = [("A", 3), ("B", 40), ("A", 500), ("C", 1), ("B", 9)];
    let mut sum: u128 = 0;
    for (donor, amount) in gifts {
        assert!(ledger.fund_project(&id("alpha"), &who(donor), amount, T, true, true).is_ok());
        sum += amount;
    }
    assert_eq!(sum, 553);
    assert_eq!(ledger.get_project_by_id(&id("alpha")).unwrap().raised, 553);
    let donors = ledger.donors_of(&id("alpha")).unwrap();
    let mut records: u128 = 0;
    for donor in donors.iter() {
        records += ledger.donation_of(&id("alpha"), donor).unwrap();
    }
    assert_eq!(records, 553);
}

#[test]
fn donor_set_lists_each_donor_once_in_order_of_first_donation() {
    let mut ledger = ledger_with_project(1_000, T + 10);
    for donor in ["B", "A", "B", "C", "A"] {
        assert!(ledger.fund_project(&id("alpha"), &who(donor), 1, T, true, true).is_ok());
    }
    let donors = ledger.donors_of(&id("alpha")).unwrap();
    let keys: Vec<String> = donors.iter().map(|d| d.key.clone()).collect();
    assert_eq!(keys, vec![id("B"), id("A"), id("C")]);
}

#[test]
fn goal_is_reached_on_the_donation_that_crosses_it() {
    let mut ledger = ledger_with_project(100, T + 10);
    assert_eq!(ledger.fund_project(&id("alpha"), &who("A"), 99, T, true, true), Ok(99));
    assert_eq!(ledger.get_project_by_id(&id("alpha")).unwrap().status, ProjectStatus::Active);
    assert_eq!(ledger.fund_project(&id("alpha"), &who("A"), 1, T, true, true), Ok(100));
    assert_eq!(ledger.get_project_by_id(&id("alpha")).unwrap().status, ProjectStatus::GoalReached);
}

#[test]
fn over_funding_is_accepted_and_keeps_goal_reached() {
    let mut ledger = ledger_with_project(100, T + 10);
    assert_eq!(ledger.fund_project(&id("alpha"), &who("A"), 100, T, true, true), Ok(100));
    assert_eq!(ledger.fund_project(&id("alpha"), &who("B"), 30, T + 50, true, true), Ok(30));
    let project = ledger.get_project_by_id(&id("alpha")).unwrap();
    assert_eq!(project.raised, 130);
    assert_eq!(project.status, ProjectStatus::GoalReached);
    assert!(!project.claimed);
}

#[test]
fn donation_at_the_deadline_is_accepted() {
    let mut ledger = ledger_with_project(100, T + 10);
    assert_eq!(ledger.fund_project(&id("alpha"), &who("A"), 5, T + 10, true, true), Ok(5));
}

#[test]
fn donation_after_the_deadline_is_refused_and_changes_nothing() {
    let mut ledger = ledger_with_project(100, T + 10);
    assert_eq!(ledger.fund_project(&id("alpha"), &who("A"), 5, T, true, true), Ok(5));
    let late = ledger.fund_project(&id("alpha"), &who("B"), 200, T + 11, true, true);
    assert_eq!(late, Err(ContractError::ProjectFundingEnded));
    assert_eq!(ledger.check_fund(&id("alpha"), 200, T + 11, true), Err(ContractError::ProjectFundingEnded));
    let project = ledger.get_project_by_id(&id("alpha")).unwrap();
    assert_eq!(project.raised, 5);
    assert_eq!(project.status, ProjectStatus::Active);
    assert_eq!(ledger.donation_of(&id("alpha"), &who("B")), Ok(0));
    assert_eq!(ledger.donors_of(&id("alpha")).unwrap().len(), 1);
}

#[test]
fn donation_to_a_completed_project_is_refused() {
    let mut ledger = ledger_with_project(100, T + 10);
    assert_eq!(ledger.fund_project(&id("alpha"), &who("A"), 100, T, true, true), Ok(100));
    assert_eq!(ledger.claim_funds(&id("alpha"), &who("creator"), T, true, true), Ok(100));
    let result = ledger.fund_project(&id("alpha"), &who("A"), 1, T, true, true);
    assert_eq!(result, Err(ContractError::ProjectFundingEnded));
}

#[test]
fn donation_beyond_the_transferable_range_overflows() {
    let top: u128 = i128::MAX as u128;
    let mut ledger = ledger_with_project(u128::MAX, T + 10);
    let huge = ledger.fund_project(&id("alpha"), &who("A"), top + 1, T, true, true);
    assert_eq!(huge, Err(ContractError::AmountOverflow));
    assert_eq!(ledger.fund_project(&id("alpha"), &who("A"), u128::MAX, T, true, true), Err(ContractError::AmountOverflow));
    assert_eq!(ledger.fund_project(&id("alpha"), &who("A"), top - 1, T, true, true), Ok(top - 1));
    assert_eq!(ledger.fund_project(&id("alpha"), &who("B"), 2, T, true, true), Err(ContractError::AmountOverflow));
    assert_eq!(ledger.fund_project(&id("alpha"), &who("B"), 1, T, true, true), Ok(1));
    assert_eq!(ledger.get_project_by_id(&id("alpha")).unwrap().raised, top);
    assert_eq!(ledger.fund_project(&id("alpha"), &who("A"), u128::MAX, T, true, true), Err(ContractError::AmountOverflow));
    assert_eq!(ledger.donation_of(&id("alpha"), &who("A")), Ok(top - 1));
}

#[test]
fn failed_transfer_leaves_a_donation_unrecorded() {
    let mut ledger = ledger_with_project(100, T + 10);
    let result = ledger.fund_project(&id("alpha"), &who("A"), 100, T, true, false);
    assert_eq!(result, Err(ContractError::TransferFailed));
    let project = ledger.get_project_by_id(&id("alpha")).unwrap();
    assert_eq!(project.raised, 0);
    assert_eq!(project.status, ProjectStatus::Active);
    assert_eq!(ledger.donation_of(&id("alpha"), &who("A")), Ok(0));
    assert_eq!(ledger.donors_of(&id("alpha")).unwrap().len(), 0);
}

#[test]
fn claim_by_another_caller_is_not_authorized() {
    let mut ledger = ledger_with_project(100, T + 10);
    assert_eq!(ledger.fund_project(&id("alpha"), &who("A"), 100, T, true, true), Ok(100));
    let result = ledger.claim_funds(&id("alpha"), &who("A"), T, true, true);
    assert_eq!(result, Err(ContractError::NotAuthorized));
    assert_eq!(ledger.get_project_by_id(&id("alpha")).unwrap().status, ProjectStatus::GoalReached);
}

#[test]
fn claim_on_missing_project_is_not_found() {
    let mut ledger = CrowdfundingContract::new();
    let result = ledger.claim_funds(&id("alpha"), &who("creator"), T, true, true);
    assert_eq!(result, Err(ContractError::ProjectNotFound));
}

#[test]
fn claim_before_goal_is_reached_fails() {
    let mut ledger = ledger_with_project(100, T + 10);
    assert_eq!(ledger.fund_project(&id("alpha"), &who("A"), 99, T, true, true), Ok(99));
    let result = ledger.claim_funds(&id("alpha"), &who("creator"), T + 1, true, true);
    assert_eq!(result, Err(ContractError::ClaimConditionsNotMet));
    assert_eq!(ledger.get_project_by_id(&id("alpha")).unwrap().status, ProjectStatus::Active);
}

#[test]
fn claim_on_failed_project_has_invalid_status() {
    let mut ledger = ledger_with_project(100, T + 10);
    assert_eq!(ledger.fund_project(&id("alpha"), &who("A"), 99, T, true, true), Ok(99));
    let result = ledger.claim_funds(&id("alpha"), &who("creator"), T + 11, true, true);
    assert_eq!(result, Err(ContractError::InvalidProjectStatus));
}

#[test]
fn failed_transfer_leaves_a_claim_open_for_retry() {
    let mut ledger = ledger_with_project(100, T + 10);
    assert_eq!(ledger.fund_project(&id("alpha"), &who("A"), 120, T, true, true), Ok(120));
    assert_eq!(ledger.check_claim(&id("alpha"), &who("creator"), T, true), Ok(120));
    let failed = ledger.claim_funds(&id("alpha"), &who("creator"), T, true, false);
    assert_eq!(failed, Err(ContractError::TransferFailed));
    let project = ledger.get_project_by_id(&id("alpha")).unwrap();
    assert_eq!(project.status, ProjectStatus::GoalReached);
    assert!(!project.claimed);
    assert_eq!(ledger.claim_funds(&id("alpha"), &who("creator"), T, true, true), Ok(120));
    let project = ledger.get_project_by_id(&id("alpha")).unwrap();
    assert_eq!(project.status, ProjectStatus::Completed);
    assert!(project.claimed);
    assert_eq!(project.raised, 120);
}

#[test]
fn scenario_fund_to_goal_then_claim_once() {
    let mut ledger = ledger_with_project(100, T + 10);
    assert_eq!(ledger.fund_project(&id("alpha"), &who("A"), 60, T, true, true), Ok(60));
    let project = ledger.get_project_by_id(&id("alpha")).unwrap();
    assert_eq!(project.raised, 60);
    assert_eq!(project.status, ProjectStatus::Active);
    assert_eq!(ledger.fund_project(&id("alpha"), &who("B"), 50, T + 1, true, true), Ok(50));
    let project = ledger.get_project_by_id(&id("alpha")).unwrap();
    assert_eq!(project.raised, 110);
    assert_eq!(project.status, ProjectStatus::GoalReached);
    assert_eq!(ledger.claim_funds(&id("alpha"), &who("creator"), T + 2, true, true), Ok(110));
    let project = ledger.get_project_by_id(&id("alpha")).unwrap();
    assert_eq!(project.status, ProjectStatus::Completed);
    let second = ledger.claim_funds(&id("alpha"), &who("creator"), T + 3, true, true);
    assert_eq!(second, Err(ContractError::InvalidProjectStatus));
    assert_eq!(ledger.get_project_by_id(&id("alpha")).unwrap().status, ProjectStatus::Completed);
}

#[test]
fn scenario_refund_after_deadline_passed_short_of_goal() {
    let mut ledger = ledger_with_project(100, T + 10);
    assert_eq!(ledger.fund_project(&id("alpha"), &who("A"), 40, T, true, true), Ok(40));
    let early = ledger.refund(&id("alpha"), &who("A"), T + 10, true, true);
    assert_eq!(early, Err(ContractError::ProjectStillActive));
    assert_eq!(ledger.get_project_by_id(&id("alpha")).unwrap().status, ProjectStatus::Active);
    assert_eq!(ledger.check_refund(&id("alpha"), &who("A"), T + 11, true), Ok(40));
    assert_eq!(ledger.refund(&id("alpha"), &who("A"), T + 11, true, true), Ok(40));
    let project = ledger.get_project_by_id(&id("alpha")).unwrap();
    assert_eq!(project.status, ProjectStatus::Failed);
    assert_eq!(project.raised, 40);
    assert_eq!(ledger.donation_of(&id("alpha"), &who("A")), Ok(0));
    let again = ledger.refund(&id("alpha"), &who("A"), T + 12, true, true);
    assert_eq!(again, Err(ContractError::NoFundsToRefund));
}

#[test]
fn refund_on_successful_project_fails() {
    let mut ledger = ledger_with_project(100, T + 10);
    assert_eq!(ledger.fund_project(&id("alpha"), &who("A"), 100, T, true, true), Ok(100));
    let reached = ledger.refund(&id("alpha"), &who("A"), T + 11, true, true);
    assert_eq!(reached, Err(ContractError::ProjectSuccessful));
    assert_eq!(ledger.claim_funds(&id("alpha"), &who("creator"), T + 11, true, true), Ok(100));
    let completed = ledger.refund(&id("alpha"), &who("A"), T + 12, true, true);
    assert_eq!(completed, Err(ContractError::ProjectSuccessful));
    assert_eq!(ledger.donation_of(&id("alpha"), &who("A")), Ok(100));
}

#[test]
fn refund_on_active_project_fails() {
    let mut ledger = ledger_with_project(100, T + 10);
    assert_eq!(ledger.fund_project(&id("alpha"), &who("A"), 10, T, true, true), Ok(10));
    let result = ledger.refund(&id("alpha"), &who("A"), T + 1, true, true);
    assert_eq!(result, Err(ContractError::ProjectStillActive));
    assert_eq!(ledger.donation_of(&id("alpha"), &who("A")), Ok(10));
}

#[test]
fn refund_to_a_stranger_finds_no_funds() {
    let mut ledger = ledger_with_project(100, T + 10);
    assert_eq!(ledger.fund_project(&id("alpha"), &who("A"), 10, T, true, true), Ok(10));
    let result = ledger.refund(&id("alpha"), &who("B"), T + 11, true, true);
    assert_eq!(result, Err(ContractError::NoFundsToRefund));
    assert_eq!(ledger.get_project_by_id(&id("alpha")).unwrap().status, ProjectStatus::Active);
}

#[test]
fn refund_on_missing_project_is_not_found() {
    let mut ledger = CrowdfundingContract::new();
    let result = ledger.refund(&id("alpha"), &who("A"), T, true, true);
    assert_eq!(result, Err(ContractError::ProjectNotFound));
}

#[test]
fn failed_transfer_leaves_a_refund_open_for_retry() {
    let mut ledger = ledger_with_project(100, T + 10);
    assert_eq!(ledger.fund_project(&id("alpha"), &who("A"), 10, T, true, true), Ok(10));
    let failed = ledger.refund(&id("alpha"), &who("A"), T + 11, true, false);
    assert_eq!(failed, Err(ContractError::TransferFailed));
    assert_eq!(ledger.donation_of(&id("alpha"), &who("A")), Ok(10));
    assert_eq!(ledger.get_project_by_id(&id("alpha")).unwrap().status, ProjectStatus::Active);
    assert_eq!(ledger.refund(&id("alpha"), &who("A"), T + 11, true, true), Ok(10));
}

#[test]
fn refunds_are_per_donor_and_remove_them_from_the_donor_set() {
    let mut ledger = ledger_with_project(100, T + 10);
    assert_eq!(ledger.fund_project(&id("alpha"), &who("A"), 10, T, true, true), Ok(10));
    assert_eq!(ledger.fund_project(&id("alpha"), &who("B"), 20, T, true, true), Ok(20));
    assert_eq!(ledger.refund(&id("alpha"), &who("B"), T + 11, true, true), Ok(20));
    assert_eq!(ledger.donation_of(&id("alpha"), &who("A")), Ok(10));
    let donors = ledger.donors_of(&id("alpha")).unwrap();
    assert_eq!(donors.len(), 1);
    assert_eq!(donors[0].key, "A");
    assert_eq!(ledger.fund_project(&id("alpha"), &who("B"), 1, T + 5, true, true), Err(ContractError::ProjectFundingEnded));
    assert_eq!(ledger.refund(&id("alpha"), &who("A"), T + 20, true, true), Ok(10));
    assert_eq!(ledger.donors_of(&id("alpha")).unwrap().len(), 0);
    let project = ledger.get_project_by_id(&id("alpha")).unwrap();
    assert_eq!(project.raised, 30);
    assert!(project.claimed);
}

#[test]
fn projects_do_not_share_funds() {
    let mut ledger = ledger_with_project(100, T + 10);
    assert_eq!(ledger.create_project(id("beta"), who("other"), 50, T + 5, id("a roof"), true), Ok(id("beta")));
    assert_eq!(ledger.fund_project(&id("beta"), &who("A"), 50, T, true, true), Ok(50));
    assert_eq!(ledger.fund_project(&id("alpha"), &who("A"), 1, T, true, true), Ok(1));
    assert_eq!(ledger.get_project_by_id(&id("alpha")).unwrap().raised, 1);
    assert_eq!(ledger.get_project_by_id(&id("beta")).unwrap().status, ProjectStatus::GoalReached);
    assert_eq!(ledger.claim_funds(&id("beta"), &who("other"), T, true, true), Ok(50));
    assert_eq!(ledger.get_project_by_id(&id("alpha")).unwrap().status, ProjectStatus::Active);
    assert_eq!(ledger.donation_of(&id("alpha"), &who("A")), Ok(1));
}

#[test]
fn update_status_stores_the_failure_once_the_deadline_has_passed() {
    let mut ledger = ledger_with_project(100, T + 10);
    assert_eq!(ledger.fund_project(&id("alpha"), &who("A"), 40, T, true, true), Ok(40));
    assert_eq!(ledger.update_status(&id("alpha"), T + 10), Ok(ProjectStatus::Active));
    assert_eq!(ledger.get_project_by_id(&id("alpha")).unwrap().status, ProjectStatus::Active);
    assert_eq!(ledger.update_status(&id("alpha"), T + 11), Ok(ProjectStatus::Failed));
    let project = ledger.get_project_by_id(&id("alpha")).unwrap();
    assert_eq!(project.status, ProjectStatus::Failed);
    assert!(project.claimed);
    assert_eq!(ledger.refund(&id("alpha"), &who("A"), T, true, true), Ok(40));
    assert_eq!(ledger.update_status(&id("beta"), T), Err(ContractError::ProjectNotFound));
}

#[test]
fn update_status_leaves_a_successful_project_alone() {
    let mut ledger = ledger_with_project(100, T + 10);
    assert_eq!(ledger.fund_project(&id("alpha"), &who("A"), 100, T, true, true), Ok(100));
    assert_eq!(ledger.update_status(&id("alpha"), T + 50), Ok(ProjectStatus::GoalReached));
    assert_eq!(ledger.get_project_by_id(&id("alpha")).unwrap().status, ProjectStatus::GoalReached);
}

#[test]
fn nothing_happens_without_proof_of_identity() {
    let mut ledger = ledger_with_project(100, T + 10);
    let created = ledger.create_project(id("beta"), who("creator"), 5, T, id(""), false);
    assert_eq!(created, Err(ContractError::NotAuthorized));
    assert!(matches!(ledger.get_project_by_id(&id("beta")), Err(ContractError::ProjectNotFound)));
    assert_eq!(ledger.check_fund(&id("alpha"), 10, T, false), Err(ContractError::NotAuthorized));
    assert_eq!(ledger.fund_project(&id("alpha"), &who("A"), 0, T, false, true), Err(ContractError::NotAuthorized));
    assert_eq!(ledger.fund_project(&id("alpha"), &who("A"), 100, T, false, true), Err(ContractError::NotAuthorized));
    assert_eq!(ledger.get_project_by_id(&id("alpha")).unwrap().raised, 0);
    assert_eq!(ledger.fund_project(&id("alpha"), &who("A"), 100, T, true, true), Ok(100));
    assert_eq!(ledger.claim_funds(&id("nope"), &who("creator"), T, false, true), Err(ContractError::NotAuthorized));
    assert_eq!(ledger.claim_funds(&id("alpha"), &who("creator"), T, false, true), Err(ContractError::NotAuthorized));
    assert_eq!(ledger.get_project_by_id(&id("alpha")).unwrap().status, ProjectStatus::GoalReached);
    assert_eq!(ledger.refund(&id("alpha"), &who("A"), T, false, true), Err(ContractError::NotAuthorized));
    assert_eq!(ledger.check_claim(&id("alpha"), &who("creator"), T, false), Err(ContractError::NotAuthorized));
    assert_eq!(ledger.check_refund(&id("alpha"), &who("A"), T, false), Err(ContractError::NotAuthorized));
}
