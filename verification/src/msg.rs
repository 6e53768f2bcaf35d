//! Requests, answers, and their mathematical values.

use vstd::prelude::*;

use crate::state::FishView;

verus! {

/// The request that sets up an empty tank. It carries nothing.
#[derive(Debug, Clone, Copy, PartialEq, Eq, Structural)]
pub struct InstantiateMsg {}

/// A request that changes the tank.
#[derive(Debug, PartialEq, Eq)]
pub enum ExecuteMsg {
    /// Adopt a new fish under the given name. Any text will do.
    AdoptFish { name: String },
    /// Feed the fish with the given id.
    FeedFish { fish_id: u64 },
}

/// A request that only reads the tank.
#[derive(Debug, PartialEq, Eq)]
pub enum QueryMsg {
    /// Every fish the owner with this canonical address ever adopted.
    FishStatus { address: Vec<u8> },
    /// Every living fish in the tank.
    AllFish {},
    /// Every dead fish in the tank.
    DeadFish {},
}

/// How a feeding ended. Both outcomes are kept: a fish found starved is
/// recorded as dead by the very call that finds it.
#[derive(Debug, Clone, Copy, PartialEq, Eq, Structural)]
pub enum FeedOutcome {
    /// The fish ate.
    Fed,
    /// The fish had gone too long without food and is now dead.
    FishDied,
}

/// What a successful [`ExecuteMsg`] did.
#[derive(Debug, Clone, Copy, PartialEq, Eq, Structural)]
pub enum ExecuteAnswer {
    AdoptFish { fish_id: u64 },
    FeedFish { outcome: FeedOutcome },
}

impl ExecuteAnswer {
    /// The text of [`ExecuteAnswer::action`].
    pub open spec fn action_text(self) -> Seq<char> {
        match self {
            ExecuteAnswer::AdoptFish { .. } => "adopt_fish"@,
            ExecuteAnswer::FeedFish { .. } => "feed_fish"@,
        }
    }

    /// The name of the action that was carried out.
    pub fn action(&self) -> (name: String)
        ensures
            name@ == self.action_text(),
    {
        match self {
            ExecuteAnswer::AdoptFish { .. } => "adopt_fish".to_owned(),
            ExecuteAnswer::FeedFish { .. } => "feed_fish".to_owned(),
        }
    }

    /// The key-value pairs of [`ExecuteAnswer::payload`].
    pub open spec fn payload_pairs(self) -> Seq<(Seq<char>, Seq<char>)> {
        match self {
            ExecuteAnswer::AdoptFish { .. } => seq![],
            ExecuteAnswer::FeedFish { outcome: FeedOutcome::Fed } => seq![("status"@, "fed"@)],
            ExecuteAnswer::FeedFish { outcome: FeedOutcome::FishDied } => seq![
                ("status"@, "fish_died"@),
                ("reason"@, "hunger"@),
            ],
        }
    }

    /// What the sender is told, as key-value pairs: nothing after an
    /// adoption, the status after a feeding, and the reason with it where
    /// the fish was found dead.
    pub fn payload(&self) -> (pairs: Vec<(String, String)>)
        ensures
            pairs.deep_view() == self.payload_pairs(),
    {
        let mut pairs: Vec<(String, String)> = Vec::new();
        match self {
            ExecuteAnswer::AdoptFish { .. } => {},
            ExecuteAnswer::FeedFish { outcome: FeedOutcome::Fed } => {
                pairs.push(("status".to_owned(), "fed".to_owned()));
            },
            ExecuteAnswer::FeedFish { outcome: FeedOutcome::FishDied } => {
                pairs.push(("status".to_owned(), "fish_died".to_owned()));
                pairs.push(("reason".to_owned(), "hunger".to_owned()));
            },
        }
        assert(pairs.deep_view() =~= self.payload_pairs());
        pairs
    }
}

/// Everything an owner is told about one of their fish.
#[derive(Debug, PartialEq, Eq)]
pub struct FullFishStatus {
    pub id: u64,
    pub name: String,
    /// Seconds since adoption.
    pub age: u64,
    pub seconds_since_fed: u64,
    pub dead: bool,
    pub colour: u16,
}

/// The mathematical value of a [`FullFishStatus`].
pub ghost struct FullFishStatusView {
    pub id: u64,
    pub name: Seq<char>,
    pub age: u64,
    pub seconds_since_fed: u64,
    pub dead: bool,
    pub colour: u16,
}

impl View for FullFishStatus {
    type V = FullFishStatusView;

    open spec fn view(&self) -> FullFishStatusView {
        FullFishStatusView {
            id: self.id,
            name: self.name@,
            age: self.age,
            seconds_since_fed: self.seconds_since_fed,
            dead: self.dead,
            colour: self.colour,
        }
    }
}

impl DeepView for FullFishStatus {
    type V = FullFishStatusView;

    open spec fn deep_view(&self) -> FullFishStatusView {
        self@
    }
}

/// What everybody may see of a living fish.
#[derive(Debug, PartialEq, Eq)]
pub struct ShortFishStatus {
    pub id: u64,
    pub name: String,
    pub colour: u16,
}

/// The mathematical value of a [`ShortFishStatus`].
pub ghost struct ShortFishStatusView {
    pub id: u64,
    pub name: Seq<char>,
    pub colour: u16,
}

impl View for ShortFishStatus {
    type V = ShortFishStatusView;

    open spec fn view(&self) -> ShortFishStatusView {
        ShortFishStatusView { id: self.id, name: self.name@, colour: self.colour }
    }
}

impl DeepView for ShortFishStatus {
    type V = ShortFishStatusView;

    open spec fn deep_view(&self) -> ShortFishStatusView {
        self@
    }
}

/// What everybody may see of a dead fish, its owner included.
#[derive(Debug, PartialEq, Eq)]
pub struct DeadFishStatus {
    pub id: u64,
    pub name: String,
    pub colour: u16,
    /// Canonical address of the owner. A host turns it into the readable
    /// form of its chain before showing it.
    pub owner: Vec<u8>,
}

/// The mathematical value of a [`DeadFishStatus`].
pub ghost struct DeadFishStatusView {
    pub id: u64,
    pub name: Seq<char>,
    pub colour: u16,
    pub owner: Seq<u8>,
}

impl View for DeadFishStatus {
    type V = DeadFishStatusView;

    open spec fn view(&self) -> DeadFishStatusView {
        DeadFishStatusView { id: self.id, name: self.name@, colour: self.colour, owner: self.owner@ }
    }
}

impl DeepView for DeadFishStatus {
    type V = DeadFishStatusView;

    open spec fn deep_view(&self) -> DeadFishStatusView {
        self@
    }
}

/// The answer to a [`QueryMsg`].
#[derive(Debug, PartialEq, Eq)]
pub enum QueryAnswer {
    MyFishStatus(Vec<FullFishStatus>),
    AllFishStatus(Vec<ShortFishStatus>),
    DeadFishStatus(Vec<DeadFishStatus>),
}

/// The mathematical value of a [`QueryAnswer`].
pub ghost enum QueryAnswerView {
    MyFishStatus(Seq<FullFishStatusView>),
    AllFishStatus(Seq<ShortFishStatusView>),
    DeadFishStatus(Seq<DeadFishStatusView>),
}

impl View for QueryAnswer {
    type V = QueryAnswerView;

    open spec fn view(&self) -> QueryAnswerView {
        match self {
            QueryAnswer::MyFishStatus(list) => QueryAnswerView::MyFishStatus(list.deep_view()),
            QueryAnswer::AllFishStatus(list) => QueryAnswerView::AllFishStatus(list.deep_view()),
            QueryAnswer::DeadFishStatus(list) => QueryAnswerView::DeadFishStatus(list.deep_view()),
        }
    }
}

/// What an owner is told about the fish stored under `id`, as of `now`.
pub open spec fn full_status_of(id: u64, fish: FishView, now: u64) -> FullFishStatusView {
    FullFishStatusView {
        id,
        name: fish.name,
        age: (now - fish.created_at) as u64,
        seconds_since_fed: (now - fish.last_fed) as u64,
        dead: fish.dead,
        colour: fish.colour,
    }
}

/// The public entry for the living fish stored under `id`.
pub open spec fn short_status_of(id: u64, fish: FishView) -> ShortFishStatusView {
    ShortFishStatusView { id, name: fish.name, colour: fish.colour }
}

/// The public entry for the dead fish stored under `id`.
pub open spec fn dead_status_of(id: u64, fish: FishView) -> DeadFishStatusView {
    DeadFishStatusView { id, name: fish.name, colour: fish.colour, owner: fish.owner }
}

} // verus!
