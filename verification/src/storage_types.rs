use vstd::prelude::*;

verus! {

/// Where a project stands in its lifecycle.
#[derive(Debug, PartialEq, Eq, Structural, Clone, Copy)]
pub enum ProjectStatus {
    /// Accepting donations, goal not yet reached.
    Active,
    /// The creator has claimed the funds.
    Completed,
    /// The goal is reached and the funds await the creator's claim.
    GoalReached,
    /// The deadline passed short of the goal; donors may take refunds.
    Failed,
}

/// An identity: a creator, a donor or a caller, by its textual key.
#[derive(Debug)]
pub struct Address {
    pub key: String,
}

impl View for Address {
    type V = Seq<char>;

    open spec fn view(&self) -> Seq<char> {
        self.key@
    }
}

impl Clone for Address {
    fn clone(&self) -> (res: Self)
        ensures
            res == *self,
    {
        Address { key: self.key.clone() }
    }
}

impl Address {
    /// The identity with the given key.
    pub fn new(key: String) -> (res: Self)
        ensures
            res@ == key@,
            res.key == key,
    {
        Address { key }
    }

    /// Whether two identities are the same one.
    pub fn same_as(&self, other: &Address) -> (res: bool)
        ensures
            res == (self@ == other@),
    {
        self.key == other.key
    }
}

/// A project as its creator set it up, with what it has raised so far.
#[derive(Debug)]
pub struct Project {
    pub creator: Address,
    pub goal: u128,
    pub raised: u128,
    pub deadline: u64,
    pub claimed: bool,
    pub description: String,
    pub status: ProjectStatus,
}

/// The mathematical value of a [`Project`].
pub struct ProjectView {
    pub creator: Seq<char>,
    pub goal: u128,
    pub raised: u128,
    pub deadline: u64,
    pub claimed: bool,
    pub description: Seq<char>,
    pub status: ProjectStatus,
}

impl View for Project {
    type V = ProjectView;

    open spec fn view(&self) -> ProjectView {
        ProjectView {
            creator: self.creator@,
            goal: self.goal,
            raised: self.raised,
            deadline: self.deadline,
            claimed: self.claimed,
            description: self.description@,
            status: self.status,
        }
    }
}

impl Clone for Project {
    fn clone(&self) -> (res: Self)
        ensures
            res == *self,
    {
        Project {
            creator: self.creator.clone(),
            goal: self.goal,
            raised: self.raised,
            deadline: self.deadline,
            claimed: self.claimed,
            description: self.description.clone(),
            status: self.status,
        }
    }
}

/// One donor's standing in one project: the cumulative amount still held for
/// them, and when they last gave.
#[derive(Debug)]
pub struct DonationData {
    pub donor: Address,
    pub amount: u128,
    pub timestamp: u64,
}

impl Clone for DonationData {
    fn clone(&self) -> (res: Self)
        ensures
            res == *self,
    {
        DonationData { donor: self.donor.clone(), amount: self.amount, timestamp: self.timestamp }
    }
}

/// The mathematical value of a [`DonationData`].
pub struct DonationView {
    pub donor: Seq<char>,
    pub amount: u128,
    pub timestamp: u64,
}

impl View for DonationData {
    type V = DonationView;

    open spec fn view(&self) -> DonationView {
        DonationView { donor: self.donor@, amount: self.amount, timestamp: self.timestamp }
    }
}

/// A project together with its donation ledger.
#[derive(Debug)]
pub struct ProjectEntry {
    pub id: String,
    pub project: Project,
    /// Total handed back to donors so far.
    pub refunded: u128,
    pub donations: Vec<DonationData>,
}

/// The mathematical value of a [`ProjectEntry`].
pub struct EntryView {
    pub id: Seq<char>,
    pub project: ProjectView,
    pub refunded: u128,
    pub donations: Seq<DonationView>,
}

impl View for ProjectEntry {
    type V = EntryView;

    open spec fn view(&self) -> EntryView {
        EntryView {
            id: self.id@,
            project: self.project@,
            refunded: self.refunded,
            donations: donations_view(self.donations@),
        }
    }
}

/// The mathematical value of a donation ledger: the value of each record, in order.
pub open spec fn donations_view(ds: Seq<DonationData>) -> Seq<DonationView> {
    ds.map_values(|d: DonationData| d@)
}

/// The key under which a record is stored: a project by its identifier, a
/// donation by project and donor, a donor set by its project.
#[derive(Debug)]
pub enum DataKey {
    Project(String),
    Donation(String, Address),
    ProjectDonors(String),
}

/// The mathematical value of a [`DataKey`].
pub enum KeyView {
    Project(Seq<char>),
    Donation(Seq<char>, Seq<char>),
    ProjectDonors(Seq<char>),
}

impl View for DataKey {
    type V = KeyView;

    open spec fn view(&self) -> KeyView {
        match self {
            DataKey::Project(id) => KeyView::Project(id@),
            DataKey::Donation(id, donor) => KeyView::Donation(id@, donor@),
            DataKey::ProjectDonors(id) => KeyView::ProjectDonors(id@),
        }
    }
}

/// What is stored under a key: a project, one donor's record, or a donor set.
#[derive(Debug)]
pub enum Record {
    Project(Project),
    Donation(DonationData),
    Donors(Vec<Address>),
}

/// The mathematical value of a [`Record`].
pub enum RecordView {
    Project(ProjectView),
    Donation(DonationView),
    Donors(Seq<Seq<char>>),
}

impl View for Record {
    type V = RecordView;

    open spec fn view(&self) -> RecordView {
        match self {
            Record::Project(project) => RecordView::Project(project@),
            Record::Donation(donation) => RecordView::Donation(donation@),
            Record::Donors(donors) => RecordView::Donors(donors@.map_values(|a: Address| a@)),
        }
    }
}

} // verus!
