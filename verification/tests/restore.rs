use crowdfunding::{
    Address, ContractError, CrowdfundingContract, DataKey, DonationData, Project, ProjectEntry,
    ProjectStatus, Record,
};

fn record(donor: &str, amount: u128) -> DonationData {
    DonationData { donor: Address::new(donor.to_string()), amount, timestamp: 7 }
}

fn project(goal: u128, raised: u128, status: ProjectStatus, claimed: bool) -> Project {
    Project {
        creator: Address::new("creator".to_string()),
        goal,
        raised,
        deadline: 50,
        claimed,
        description: "a well".to_string(),
        status,
    }
}

#[test]
fn from_records_accepts_a_consistent_active_project() {
    let entry = ProjectEntry::from_records(
        "alpha".to_string(),
        project(100, 30, ProjectStatus::Active, false),
        vec![record("A", 10), record("B", 20)],
    )
    .unwrap();
    assert_eq!(entry.refunded, 0);
    assert!(entry.is_valid());
    let mut ledger = CrowdfundingContract::restore(vec![entry]).unwrap();
    assert_eq!(ledger.donation_of(&"alpha".to_string(), &Address::new("B".to_string())), Ok(20));
    assert_eq!(
        ledger.fund_project(&"alpha".to_string(), &Address::new("B".to_string()), 70, 1, true, true),
        Ok(90)
    );
    assert_eq!(ledger.entries().len(), 1);
    assert_eq!(ledger.entries()[0].project.raised, 100);
    assert_eq!(ledger.entries()[0].project.status, ProjectStatus::GoalReached);
    assert_eq!(ledger.entries()[0].donations[1].timestamp, 1);
}

#[test]
fn from_records_works_out_what_was_refunded() {
    let entry = ProjectEntry::from_records(
        "alpha".to_string(),
        project(100, 30, ProjectStatus::Failed, true),
        vec![record("A", 10), record("B", 0)],
    )
    .unwrap();
    assert_eq!(entry.refunded, 20);
}

#[test]
fn from_records_refuses_records_that_do_not_add_up() {
    let more = ProjectEntry::from_records(
        "alpha".to_string(),
        project(100, 30, ProjectStatus::Active, false),
        vec![record("A", 10), record("B", 21)],
    );
    assert!(more.is_none());
    let less = ProjectEntry::from_records(
        "alpha".to_string(),
        project(100, 30, ProjectStatus::Active, false),
        vec![record("A", 10)],
    );
    assert!(less.is_none());
}

#[test]
fn from_records_refuses_a_status_that_disagrees_with_the_goal() {
    let reached = ProjectEntry::from_records(
        "alpha".to_string(),
        project(100, 30, ProjectStatus::GoalReached, false),
        vec![record("A", 30)],
    );
    assert!(reached.is_none());
    let active = ProjectEntry::from_records(
        "alpha".to_string(),
        project(100, 100, ProjectStatus::Active, false),
        vec![record("A", 100)],
    );
    assert!(active.is_none());
    let zero_goal = ProjectEntry::from_records(
        "alpha".to_string(),
        project(0, 0, ProjectStatus::GoalReached, false),
        vec![],
    );
    assert!(zero_goal.is_none());
}

#[test]
fn from_records_refuses_a_donor_with_two_records() {
    let entry = ProjectEntry::from_records(
        "alpha".to_string(),
        project(100, 30, ProjectStatus::Active, false),
        vec![record("A", 10), record("A", 20)],
    );
    assert!(entry.is_none());
}

#[test]
fn restore_refuses_two_projects_with_one_identifier() {
    let first = ProjectEntry::new("alpha".to_string(), Address::new("c".to_string()), 5, 1, String::new());
    let second = ProjectEntry::new("alpha".to_string(), Address::new("d".to_string()), 6, 2, String::new());
    assert!(CrowdfundingContract::restore(vec![first, second]).is_none());
}

#[test]
fn restore_refuses_an_entry_that_is_not_valid() {
    let mut entry = ProjectEntry::new("alpha".to_string(), Address::new("c".to_string()), 5, 1, String::new());
    entry.project.raised = 3;
    assert!(!entry.is_valid());
    assert!(CrowdfundingContract::restore(vec![entry]).is_none());
}

#[test]
fn restore_of_nothing_is_the_empty_ledger() {
    let ledger = CrowdfundingContract::restore(vec![]).unwrap();
    assert_eq!(ledger.entries().len(), 0);
    assert!(matches!(
        ledger.get_project_by_id(&"alpha".to_string()),
        Err(ContractError::ProjectNotFound)
    ));
}

#[test]
fn records_list_the_project_the_donor_set_and_each_donation() {
    let entry = ProjectEntry::from_records(
        "alpha".to_string(),
        project(100, 30, ProjectStatus::Failed, true),
        vec![record("A", 10), record("B", 0), record("C", 5)],
    )
    .unwrap();
    let records = entry.records();
    assert_eq!(records.len(), 5);
    match &records[0] {
        (DataKey::Project(id), Record::Project(stored)) => {
            assert_eq!(id, "alpha");
            assert_eq!(stored.raised, 30);
            assert_eq!(stored.goal, 100);
            assert_eq!(stored.status, ProjectStatus::Failed);
            assert_eq!(stored.creator.key, "creator");
        }
        other => panic!("unexpected first record: {:?}", other),
    }
    match &records[1] {
        (DataKey::ProjectDonors(id), Record::Donors(donors)) => {
            assert_eq!(id, "alpha");
            let keys: Vec<&str> = donors.iter().map(|d| d.key.as_str()).collect();
            assert_eq!(keys, vec!["A", "C"]);
        }
        other => panic!("unexpected second record: {:?}", other),
    }
    let expected: [(&str, u128); 3] = [("A", 10), ("B", 0), ("C", 5)];
    for (i, (donor, amount)) in expected.iter().enumerate() {
        match &records[i + 2] {
            (DataKey::Donation(id, who), Record::Donation(stored)) => {
                assert_eq!(id, "alpha");
                assert_eq!(who.key, *donor);
                assert_eq!(stored.donor.key, *donor);
                assert_eq!(stored.amount, *amount);
                assert_eq!(stored.timestamp, 7);
            }
            other => panic!("unexpected record: {:?}", other),
        }
    }
}

#[test]
fn records_put_together_again_give_the_same_entry() {
    let mut ledger = CrowdfundingContract::new();
    let id = "alpha".to_string();
    let creator = Address::new("creator".to_string());
    assert!(ledger.create_project(id.clone(), creator, 100, 50, String::new(), true).is_ok());
    assert_eq!(ledger.fund_project(&id, &Address::new("A".to_string()), 10, 1, true, true), Ok(10));
    assert_eq!(ledger.fund_project(&id, &Address::new("B".to_string()), 20, 2, true, true), Ok(20));
    assert_eq!(ledger.refund(&id, &Address::new("A".to_string()), 51, true, true), Ok(10));
    let mut stored_project = None;
    let mut stored_donations = Vec::new();
    for (_, record) in ledger.entries()[0].records() {
        match record {
            Record::Project(p) => stored_project = Some(p),
            Record::Donation(d) => stored_donations.push(d),
            Record::Donors(_) => {}
        }
    }
    let entry = ProjectEntry::from_records(id.clone(), stored_project.unwrap(), stored_donations).unwrap();
    assert_eq!(entry.refunded, 10);
    let mut again = CrowdfundingContract::restore(vec![entry]).unwrap();
    assert_eq!(again.donation_of(&id, &Address::new("B".to_string())), Ok(20));
    assert_eq!(again.refund(&id, &Address::new("A".to_string()), 60, true, true), Err(ContractError::NoFundsToRefund));
    assert_eq!(again.refund(&id, &Address::new("B".to_string()), 60, true, true), Ok(20));
}
