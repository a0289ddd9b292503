//! The records of everything that lives on the map: pops, houses, workplaces
//! and restaurants, each under an identity that is never given out twice.

use vstd::prelude::*;
use crate::grid::{Grid, Position};

verus! {

/// The most hunger a pop can carry.
pub const HUNGER_MAX: u32 = 10000;

/// The most energy a pop can hold.
pub const ENERGY_MAX: u32 = 10000;

/// What a pop owns when it is spawned.
pub const STARTING_MONEY: i32 = 100;

/// The energy of a pop when it is spawned.
pub const STARTING_ENERGY: u32 = 100;

/// The residents a new house can take.
pub const HOUSE_CAPACITY: u32 = 4;

/// The employees a new workplace can take.
pub const WORKPLACE_CAPACITY: u32 = 10;

/// The guests a new restaurant is laid out for.
pub const RESTAURANT_CAPACITY: u32 = 20;

/// What a pop is doing.
#[derive(Clone, Copy, Debug, PartialEq, Eq, Hash, Structural)]
pub enum PopState {
    Idle,
    Working,
    Eating,
    Sleeping,
}

impl Default for PopState {
    fn default() -> (state: PopState)
        ensures
            state == PopState::Idle,
    {
        PopState::Idle
    }
}

/// A pop's employment: where it works, for how much a day, and where that is.
#[derive(Clone, Copy, Debug, PartialEq, Eq)]
pub struct Job {
    pub workplace: u32,
    pub salary: u32,
    pub position: Position,
}

/// An agent with needs, employment and housing.
#[derive(Clone, Copy, Debug, PartialEq, Eq)]
pub struct Pop {
    pub id: u32,
    pub money: i32,
    pub hunger: u32,
    pub energy: u32,
    pub job: Option<Job>,
    pub home: Option<u32>,
    pub position: Position,
    pub destination: Option<Position>,
    pub state: PopState,
}

/// A place of work, with the pops it employs.
#[derive(Clone, Debug, PartialEq, Eq)]
pub struct Workplace {
    pub id: u32,
    pub capacity: u32,
    pub employees: Vec<u32>,
    pub position: Position,
}

/// A place to eat. Its capacity is for show: any number of pops may eat
/// there.
#[derive(Clone, Copy, Debug, PartialEq, Eq)]
pub struct Restaurant {
    pub id: u32,
    pub capacity: u32,
    pub position: Position,
}

/// A place to live, with the pops that live there.
#[derive(Clone, Debug, PartialEq, Eq)]
pub struct House {
    pub id: u32,
    pub capacity: u32,
    pub residents: Vec<u32>,
    pub position: Position,
}

/// A workplace as a mathematical value.
pub struct WorkplaceView {
    pub id: u32,
    pub capacity: u32,
    pub employees: Seq<u32>,
    pub position: Position,
}

/// A house as a mathematical value.
pub struct HouseView {
    pub id: u32,
    pub capacity: u32,
    pub residents: Seq<u32>,
    pub position: Position,
}

impl View for Workplace {
    type V = WorkplaceView;

    open spec fn view(&self) -> WorkplaceView {
        WorkplaceView {
            id: self.id,
            capacity: self.capacity,
            employees: self.employees@,
            position: self.position,
        }
    }
}

impl View for House {
    type V = HouseView;

    open spec fn view(&self) -> HouseView {
        HouseView {
            id: self.id,
            capacity: self.capacity,
            residents: self.residents@,
            position: self.position,
        }
    }
}

impl WorkplaceView {
    /// No more employees than places.
    pub open spec fn within_capacity(&self) -> bool {
        self.employees.len() <= self.capacity
    }

    /// Whether a place is free.
    pub open spec fn has_opening(&self) -> bool {
        self.employees.len() < self.capacity
    }
}

impl HouseView {
    /// No more residents than places.
    pub open spec fn within_capacity(&self) -> bool {
        self.residents.len() <= self.capacity
    }

    /// Whether a place is free.
    pub open spec fn has_opening(&self) -> bool {
        self.residents.len() < self.capacity
    }
}

impl Pop {
    /// Hunger and energy within their limits.
    pub open spec fn needs_bounded(&self) -> bool {
        self.hunger <= HUNGER_MAX && self.energy <= ENERGY_MAX
    }

    /// A pop as it is spawned: idle, unemployed, homeless, going nowhere.
    pub open spec fn fresh(id: u32, position: Position) -> Pop {
        Pop {
            id,
            money: STARTING_MONEY,
            hunger: 0,
            energy: STARTING_ENERGY,
            job: None,
            home: None,
            position,
            destination: None,
            state: PopState::Idle,
        }
    }

    pub fn new(id: u32, position: Position) -> (pop: Pop)
        ensures
            pop == Pop::fresh(id, position),
            pop.needs_bounded(),
    {
        Pop {
            id,
            money: STARTING_MONEY,
            hunger: 0,
            energy: STARTING_ENERGY,
            job: None,
            home: None,
            position,
            destination: None,
            state: PopState::Idle,
        }
    }
}

impl Workplace {
    /// The number of employees.
    pub fn occupancy(&self) -> (n: usize)
        ensures
            n == self@.employees.len(),
    {
        self.employees.len()
    }

    /// Whether a place is free.
    pub fn has_opening(&self) -> (b: bool)
        ensures
            b == self@.has_opening(),
    {
        self.employees.len() < self.capacity as usize
    }
}

impl House {
    /// The number of residents.
    pub fn occupancy(&self) -> (n: usize)
        ensures
            n == self@.residents.len(),
    {
        self.residents.len()
    }

    /// Whether a place is free.
    pub fn has_opening(&self) -> (b: bool)
        ensures
            b == self@.has_opening(),
    {
        self.residents.len() < self.capacity as usize
    }
}

/// The workplaces of a list as mathematical values, in the list's order.
pub open spec fn workplace_views(list: Seq<Workplace>) -> Seq<WorkplaceView> {
    Seq::new(list.len(), |i: int| list[i]@)
}

/// The houses of a list as mathematical values, in the list's order.
pub open spec fn house_views(list: Seq<House>) -> Seq<HouseView> {
    Seq::new(list.len(), |i: int| list[i]@)
}

/// Where the first of the first `n` houses with the identity `id` stands in
/// the list.
pub open spec fn house_index_upto(houses: Seq<HouseView>, id: u32, n: int) -> Option<int>
    decreases n,
{
    if n <= 0 {
        None
    } else {
        match house_index_upto(houses, id, n - 1) {
            Some(i) => Some(i),
            None => if houses[n - 1].id == id {
                Some(n - 1)
            } else {
                None
            },
        }
    }
}

/// Where the first house with the identity `id` stands in the list.
pub open spec fn house_index(houses: Seq<HouseView>, id: u32) -> Option<int> {
    house_index_upto(houses, id, houses.len() as int)
}

/// The position of the house with the identity `id`, if there is one.
pub open spec fn house_position(houses: Seq<HouseView>, id: u32) -> Option<Position> {
    match house_index(houses, id) {
        Some(i) => Some(houses[i].position),
        None => None,
    }
}

/// Where the first of the first `n` workplaces with the identity `id` stands
/// in the list.
pub open spec fn workplace_index_upto(workplaces: Seq<WorkplaceView>, id: u32, n: int) -> Option<
    int,
>
    decreases n,
{
    if n <= 0 {
        None
    } else {
        match workplace_index_upto(workplaces, id, n - 1) {
            Some(i) => Some(i),
            None => if workplaces[n - 1].id == id {
                Some(n - 1)
            } else {
                None
            },
        }
    }
}

/// Where the first workplace with the identity `id` stands in the list.
pub open spec fn workplace_index(workplaces: Seq<WorkplaceView>, id: u32) -> Option<int> {
    workplace_index_upto(workplaces, id, workplaces.len() as int)
}

/// What a search of the first `n` houses finds: the first match, or nothing
/// where none of them matches.
pub proof fn lemma_house_index_upto(houses: Seq<HouseView>, id: u32, n: int)
    requires
        0 <= n <= houses.len(),
    ensures
        match house_index_upto(houses, id, n) {
            Some(i) => 0 <= i < n && houses[i].id == id && forall|j: int|
                0 <= j < i ==> houses[j].id != id,
            None => forall|j: int| 0 <= j < n ==> houses[j].id != id,
        },
    decreases n,
{
    if n > 0 {
        lemma_house_index_upto(houses, id, n - 1);
    }
}

/// What a search of the first `n` workplaces finds: the first match, or
/// nothing where none of them matches.
pub proof fn lemma_workplace_index_upto(workplaces: Seq<WorkplaceView>, id: u32, n: int)
    requires
        0 <= n <= workplaces.len(),
    ensures
        match workplace_index_upto(workplaces, id, n) {
            Some(i) => 0 <= i < n && workplaces[i].id == id && forall|j: int|
                0 <= j < i ==> workplaces[j].id != id,
            None => forall|j: int| 0 <= j < n ==> workplaces[j].id != id,
        },
    decreases n,
{
    if n > 0 {
        lemma_workplace_index_upto(workplaces, id, n - 1);
    }
}

/// Finds the house with the identity `id`: the first in the list, or nothing
/// where the list has none.
pub fn find_house(houses: &Vec<House>, id: u32) -> (found: Option<usize>)
    ensures
        match found {
            Some(i) => house_index(house_views(houses@), id) == Some(i as int) && i < houses.len()
                && houses[i as int].id == id,
            None => house_index(house_views(houses@), id).is_none(),
        },
{
    let ghost views = house_views(houses@);
    let mut i: usize = 0;
    while i < houses.len()
        invariant
            i <= houses.len(),
            views == house_views(houses@),
            house_index_upto(views, id, i as int).is_none(),
        decreases houses.len() - i,
    {
        if houses[i].id == id {
            proof {
                lemma_house_index_grows(views, id, i as int + 1, views.len() as int);
            }
            return Some(i);
        }
        i += 1;
    }
    None
}

/// Finds the workplace with the identity `id`: the first in the list, or
/// nothing where the list has none.
pub fn find_workplace(workplaces: &Vec<Workplace>, id: u32) -> (found: Option<usize>)
    ensures
        match found {
            Some(i) => workplace_index(workplace_views(workplaces@), id) == Some(i as int) && i
                < workplaces.len() && workplaces[i as int].id == id,
            None => workplace_index(workplace_views(workplaces@), id).is_none(),
        },
{
    let ghost views = workplace_views(workplaces@);
    let mut i: usize = 0;
    while i < workplaces.len()
        invariant
            i <= workplaces.len(),
            views == workplace_views(workplaces@),
            workplace_index_upto(views, id, i as int).is_none(),
        decreases workplaces.len() - i,
    {
        if workplaces[i].id == id {
            proof {
                lemma_workplace_index_grows(views, id, i as int + 1, views.len() as int);
            }
            return Some(i);
        }
        i += 1;
    }
    None
}

/// A match among the first `n` houses is still the match among the first `m`.
pub proof fn lemma_house_index_grows(houses: Seq<HouseView>, id: u32, n: int, m: int)
    requires
        0 <= n <= m,
        house_index_upto(houses, id, n).is_some(),
    ensures
        house_index_upto(houses, id, m) == house_index_upto(houses, id, n),
    decreases m - n,
{
    if n < m {
        lemma_house_index_grows(houses, id, n, m - 1);
    }
}

/// A match among the first `n` workplaces is still the match among the first
/// `m`.
pub proof fn lemma_workplace_index_grows(workplaces: Seq<WorkplaceView>, id: u32, n: int, m: int)
    requires
        0 <= n <= m,
        workplace_index_upto(workplaces, id, n).is_some(),
    ensures
        workplace_index_upto(workplaces, id, m) == workplace_index_upto(workplaces, id, n),
    decreases m - n,
{
    if n < m {
        lemma_workplace_index_grows(workplaces, id, n, m - 1);
    }
}

} // verus!
