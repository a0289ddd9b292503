//! The agent directory: the one owner of every record, which hands out the
//! identities.

use vstd::prelude::*;
use crate::agents::{
    house_views, workplace_views, House, HouseView, Pop, Restaurant, Workplace, WorkplaceView,
    ENERGY_MAX, HOUSE_CAPACITY, HUNGER_MAX, RESTAURANT_CAPACITY, WORKPLACE_CAPACITY,
};
use crate::grid::{Grid, Position};

verus! {

/// Every record of the simulation, by kind, each list in the order in which
/// its records were made.
#[derive(Clone, Debug, PartialEq, Eq)]
pub struct Directory {
    pub grid: Grid,
    pub pops: Vec<Pop>,
    pub houses: Vec<House>,
    pub workplaces: Vec<Workplace>,
    pub restaurants: Vec<Restaurant>,
    pub next_id: u32,
}

/// The directory as a mathematical value.
pub struct DirectoryView {
    pub grid: Grid,
    pub pops: Seq<Pop>,
    pub houses: Seq<HouseView>,
    pub workplaces: Seq<WorkplaceView>,
    pub restaurants: Seq<Restaurant>,
    pub next_id: u32,
}

impl View for Directory {
    type V = DirectoryView;

    open spec fn view(&self) -> DirectoryView {
        DirectoryView {
            grid: self.grid,
            pops: self.pops@,
            houses: house_views(self.houses@),
            workplaces: workplace_views(self.workplaces@),
            restaurants: self.restaurants@,
            next_id: self.next_id,
        }
    }
}

/// Identities in ascending order, each already given out.
pub open spec fn ids_ascending(ids: Seq<u32>, next_id: u32) -> bool {
    &&& forall|i: int, j: int| 0 <= i < j < ids.len() ==> ids[i] < ids[j]
    &&& forall|i: int| 0 <= i < ids.len() ==> ids[i] < next_id
}

/// Giving out the next identity keeps a list in order, whether the new
/// record joins it or not.
pub proof fn lemma_next_id_keeps_order(ids: Seq<u32>, next_id: u32)
    requires
        ids_ascending(ids, next_id),
        next_id < u32::MAX,
    ensures
        ids_ascending(ids, (next_id + 1) as u32),
        ids_ascending(ids.push(next_id), (next_id + 1) as u32),
{
}

impl DirectoryView {
    /// What holds of a directory once the next identity is given out to a
    /// record that keeps the other lists as they were.
    pub proof fn lemma_ids_after_spawn(self)
        requires
            self.ids_sound(),
            self.next_id < u32::MAX,
        ensures
            ids_ascending(self.pop_ids(), (self.next_id + 1) as u32),
            ids_ascending(self.house_ids(), (self.next_id + 1) as u32),
            ids_ascending(self.workplace_ids(), (self.next_id + 1) as u32),
            ids_ascending(self.restaurant_ids(), (self.next_id + 1) as u32),
            ids_ascending(self.pop_ids().push(self.next_id), (self.next_id + 1) as u32),
            ids_ascending(self.house_ids().push(self.next_id), (self.next_id + 1) as u32),
            ids_ascending(self.workplace_ids().push(self.next_id), (self.next_id + 1) as u32),
            ids_ascending(self.restaurant_ids().push(self.next_id), (self.next_id + 1) as u32),
    {
        lemma_next_id_keeps_order(self.pop_ids(), self.next_id);
        lemma_next_id_keeps_order(self.house_ids(), self.next_id);
        lemma_next_id_keeps_order(self.workplace_ids(), self.next_id);
        lemma_next_id_keeps_order(self.restaurant_ids(), self.next_id);
    }

    pub open spec fn pop_ids(&self) -> Seq<u32> {
        Seq::new(self.pops.len(), |i: int| self.pops[i].id)
    }

    pub open spec fn house_ids(&self) -> Seq<u32> {
        Seq::new(self.houses.len(), |i: int| self.houses[i].id)
    }

    pub open spec fn workplace_ids(&self) -> Seq<u32> {
        Seq::new(self.workplaces.len(), |i: int| self.workplaces[i].id)
    }

    pub open spec fn restaurant_ids(&self) -> Seq<u32> {
        Seq::new(self.restaurants.len(), |i: int| self.restaurants[i].id)
    }

    /// Every pop stands on the map with its needs within their limits.
    pub open spec fn pops_sound(&self) -> bool {
        forall|i: int|
            0 <= i < self.pops.len() ==> (#[trigger] self.pops[i]).needs_bounded()
                && self.grid.holds(self.pops[i].position)
    }

    /// No workplace has more employees than places, and no house more
    /// residents.
    pub open spec fn within_capacity(&self) -> bool {
        &&& forall|i: int|
            0 <= i < self.workplaces.len() ==> (#[trigger] self.workplaces[i]).within_capacity()
        &&& forall|i: int|
            0 <= i < self.houses.len() ==> (#[trigger] self.houses[i]).within_capacity()
    }

    /// The records of each kind stand in the order of their identities, which
    /// were all given out by this directory.
    pub open spec fn ids_sound(&self) -> bool {
        &&& ids_ascending(self.pop_ids(), self.next_id)
        &&& ids_ascending(self.house_ids(), self.next_id)
        &&& ids_ascending(self.workplace_ids(), self.next_id)
        &&& ids_ascending(self.restaurant_ids(), self.next_id)
    }

    pub open spec fn wf(&self) -> bool {
        &&& self.grid.wf()
        &&& self.pops_sound()
        &&& self.within_capacity()
        &&& self.ids_sound()
    }

    /// Whether the directory can take a record at `position`: the cell is on
    /// the map and an identity is left to give.
    pub open spec fn can_spawn(&self, position: Position) -> bool {
        self.next_id < u32::MAX && self.grid.holds(position)
    }
}

impl Directory {
    pub open spec fn wf(&self) -> bool {
        self@.wf()
    }

    /// A directory with no record in it.
    pub fn new(grid: Grid) -> (directory: Directory)
        requires
            grid.wf(),
        ensures
            directory.wf(),
            directory@ == (DirectoryView {
                grid,
                pops: Seq::empty(),
                houses: Seq::empty(),
                workplaces: Seq::empty(),
                restaurants: Seq::empty(),
                next_id: 0,
            }),
    {
        let directory = Directory {
            grid,
            pops: Vec::new(),
            houses: Vec::new(),
            workplaces: Vec::new(),
            restaurants: Vec::new(),
            next_id: 0,
        };
        assert(directory@.houses =~= Seq::empty());
        assert(directory@.workplaces =~= Seq::empty());
        directory
    }

    /// Adds an idle pop at `position` and returns its identity; adds nothing
    /// where the cell is off the map or no identity is left.
    pub fn spawn_pop(&mut self, position: Position) -> (id: Option<u32>)
        requires
            old(self).wf(),
        ensures
            final(self).wf(),
            old(self)@.can_spawn(position) ==> id == Some(old(self).next_id) && final(self)@ == (
            DirectoryView {
                pops: old(self)@.pops.push(Pop::fresh(old(self).next_id, position)),
                next_id: (old(self).next_id + 1) as u32,
                ..old(self)@
            }),
            !old(self)@.can_spawn(position) ==> id.is_none() && final(self)@ == old(self)@,
    {
        if self.next_id == u32::MAX || !self.grid.contains(position) {
            return None;
        }
        let id: u32 = self.next_id;
        self.pops.push(Pop::new(id, position));
        self.next_id = id + 1;
        proof {
            old(self)@.lemma_ids_after_spawn();
            assert(self@.pop_ids() =~= old(self)@.pop_ids().push(id));
            assert(self@.house_ids() =~= old(self)@.house_ids());
            assert(self@.workplace_ids() =~= old(self)@.workplace_ids());
            assert(self@.restaurant_ids() =~= old(self)@.restaurant_ids());
            assert(self@.houses =~= old(self)@.houses);
            assert(self@.workplaces =~= old(self)@.workplaces);
        }
        Some(id)
    }

    /// Adds an empty house at `position` and returns its identity; adds
    /// nothing where the cell is off the map or no identity is left.
    pub fn spawn_house(&mut self, position: Position) -> (id: Option<u32>)
        requires
            old(self).wf(),
        ensures
            final(self).wf(),
            old(self)@.can_spawn(position) ==> id == Some(old(self).next_id) && final(self)@ == (
            DirectoryView {
                houses: old(self)@.houses.push(
                    HouseView {
                        id: old(self).next_id,
                        capacity: HOUSE_CAPACITY,
                        residents: Seq::empty(),
                        position,
                    },
                ),
                next_id: (old(self).next_id + 1) as u32,
                ..old(self)@
            }),
            !old(self)@.can_spawn(position) ==> id.is_none() && final(self)@ == old(self)@,
    {
        if self.next_id == u32::MAX || !self.grid.contains(position) {
            return None;
        }
        let id: u32 = self.next_id;
        self.houses.push(House { id, capacity: HOUSE_CAPACITY, residents: Vec::new(), position });
        self.next_id = id + 1;
        proof {
            old(self)@.lemma_ids_after_spawn();
            assert(self@.house_ids() =~= old(self)@.house_ids().push(id));
            assert(self@.pop_ids() =~= old(self)@.pop_ids());
            assert(self@.workplace_ids() =~= old(self)@.workplace_ids());
            assert(self@.restaurant_ids() =~= old(self)@.restaurant_ids());
            assert(self@.workplaces =~= old(self)@.workplaces);
            assert(self@.houses =~= old(self)@.houses.push(
                HouseView { id, capacity: HOUSE_CAPACITY, residents: Seq::empty(), position },
            ));
        }
        Some(id)
    }

    /// Adds a workplace without employees at `position` and returns its
    /// identity; adds nothing where the cell is off the map or no identity is
    /// left.
    pub fn spawn_workplace(&mut self, position: Position) -> (id: Option<u32>)
        requires
            old(self).wf(),
        ensures
            final(self).wf(),
            old(self)@.can_spawn(position) ==> id == Some(old(self).next_id) && final(self)@ == (
            DirectoryView {
                workplaces: old(self)@.workplaces.push(
                    WorkplaceView {
                        id: old(self).next_id,
                        capacity: WORKPLACE_CAPACITY,
                        employees: Seq::empty(),
                        position,
                    },
                ),
                next_id: (old(self).next_id + 1) as u32,
                ..old(self)@
            }),
            !old(self)@.can_spawn(position) ==> id.is_none() && final(self)@ == old(self)@,
    {
        if self.next_id == u32::MAX || !self.grid.contains(position) {
            return None;
        }
        let id: u32 = self.next_id;
        self.workplaces.push(
            Workplace { id, capacity: WORKPLACE_CAPACITY, employees: Vec::new(), position },
        );
        self.next_id = id + 1;
        proof {
            old(self)@.lemma_ids_after_spawn();
            assert(self@.workplace_ids() =~= old(self)@.workplace_ids().push(id));
            assert(self@.pop_ids() =~= old(self)@.pop_ids());
            assert(self@.house_ids() =~= old(self)@.house_ids());
            assert(self@.restaurant_ids() =~= old(self)@.restaurant_ids());
            assert(self@.houses =~= old(self)@.houses);
            assert(self@.workplaces =~= old(self)@.workplaces.push(
                WorkplaceView {
                    id,
                    capacity: WORKPLACE_CAPACITY,
                    employees: Seq::empty(),
                    position,
                },
            ));
        }
        Some(id)
    }

    /// Adds a restaurant at `position` and returns its identity; adds nothing
    /// where the cell is off the map or no identity is left.
    pub fn spawn_restaurant(&mut self, position: Position) -> (id: Option<u32>)
        requires
            old(self).wf(),
        ensures
            final(self).wf(),
            old(self)@.can_spawn(position) ==> id == Some(old(self).next_id) && final(self)@ == (
            DirectoryView {
                restaurants: old(self)@.restaurants.push(
                    Restaurant { id: old(self).next_id, capacity: RESTAURANT_CAPACITY, position },
                ),
                next_id: (old(self).next_id + 1) as u32,
                ..old(self)@
            }),
            !old(self)@.can_spawn(position) ==> id.is_none() && final(self)@ == old(self)@,
    {
        if self.next_id == u32::MAX || !self.grid.contains(position) {
            return None;
        }
        let id: u32 = self.next_id;
        self.restaurants.push(Restaurant { id, capacity: RESTAURANT_CAPACITY, position });
        self.next_id = id + 1;
        proof {
            old(self)@.lemma_ids_after_spawn();
            assert(self@.restaurant_ids() =~= old(self)@.restaurant_ids().push(id));
            assert(self@.pop_ids() =~= old(self)@.pop_ids());
            assert(self@.house_ids() =~= old(self)@.house_ids());
            assert(self@.workplace_ids() =~= old(self)@.workplace_ids());
            assert(self@.houses =~= old(self)@.houses);
            assert(self@.workplaces =~= old(self)@.workplaces);
        }
        Some(id)
    }
}

/// Whether a list of identities is in ascending order and all of them
/// below `next_id`.
pub fn ascending_below(ids: &Vec<u32>, next_id: u32) -> (b: bool)
    ensures
        b == ids_ascending(ids@, next_id),
{
    let mut i: usize = 0;
    while i < ids.len()
        invariant
            i <= ids.len(),
            forall|a: int, b: int| 0 <= a < b < i ==> ids[a] < ids[b],
            forall|a: int| 0 <= a < i ==> ids[a] < next_id,
        decreases ids.len() - i,
    {
        if ids[i] >= next_id {
            return false;
        }
        if i > 0 && ids[i - 1] >= ids[i] {
            return false;
        }
        i += 1;
    }
    true
}

impl Directory {
    /// The identities of the pops, in the order of the directory.
    pub fn pop_ids(&self) -> (ids: Vec<u32>)
        ensures
            ids@ == self@.pop_ids(),
    {
        let mut ids: Vec<u32> = Vec::new();
        let mut i: usize = 0;
        while i < self.pops.len()
            invariant
                i <= self.pops.len(),
                ids@ == self@.pop_ids().take(i as int),
            decreases self.pops.len() - i,
        {
            ids.push(self.pops[i].id);
            assert(self@.pop_ids().take(i + 1) =~= self@.pop_ids().take(i as int).push(
                self.pops[i as int].id,
            ));
            i += 1;
        }
        assert(self@.pop_ids().take(i as int) =~= self@.pop_ids());
        ids
    }

    /// The identities of the houses, in the order of the directory.
    pub fn house_ids(&self) -> (ids: Vec<u32>)
        ensures
            ids@ == self@.house_ids(),
    {
        let mut ids: Vec<u32> = Vec::new();
        let mut i: usize = 0;
        while i < self.houses.len()
            invariant
                i <= self.houses.len(),
                ids@ == self@.house_ids().take(i as int),
            decreases self.houses.len() - i,
        {
            ids.push(self.houses[i].id);
            assert(self@.house_ids().take(i + 1) =~= self@.house_ids().take(i as int).push(
                self.houses[i as int].id,
            ));
            i += 1;
        }
        assert(self@.house_ids().take(i as int) =~= self@.house_ids());
        ids
    }

    /// The identities of the workplaces, in the order of the directory.
    pub fn workplace_ids(&self) -> (ids: Vec<u32>)
        ensures
            ids@ == self@.workplace_ids(),
    {
        let mut ids: Vec<u32> = Vec::new();
        let mut i: usize = 0;
        while i < self.workplaces.len()
            invariant
                i <= self.workplaces.len(),
                ids@ == self@.workplace_ids().take(i as int),
            decreases self.workplaces.len() - i,
        {
            ids.push(self.workplaces[i].id);
            assert(self@.workplace_ids().take(i + 1) =~= self@.workplace_ids().take(
                i as int,
            ).push(self.workplaces[i as int].id));
            i += 1;
        }
        assert(self@.workplace_ids().take(i as int) =~= self@.workplace_ids());
        ids
    }

    /// The identities of the restaurants, in the order of the directory.
    pub fn restaurant_ids(&self) -> (ids: Vec<u32>)
        ensures
            ids@ == self@.restaurant_ids(),
    {
        let mut ids: Vec<u32> = Vec::new();
        let mut i: usize = 0;
        while i < self.restaurants.len()
            invariant
                i <= self.restaurants.len(),
                ids@ == self@.restaurant_ids().take(i as int),
            decreases self.restaurants.len() - i,
        {
            ids.push(self.restaurants[i].id);
            assert(self@.restaurant_ids().take(i + 1) =~= self@.restaurant_ids().take(
                i as int,
            ).push(self.restaurants[i as int].id));
            i += 1;
        }
        assert(self@.restaurant_ids().take(i as int) =~= self@.restaurant_ids());
        ids
    }

    /// Whether every pop stands on the map with its needs within their
    /// limits.
    pub fn pops_are_sound(&self) -> (b: bool)
        ensures
            b == self@.pops_sound(),
    {
        let mut i: usize = 0;
        while i < self.pops.len()
            invariant
                i <= self.pops.len(),
                forall|j: int|
                    0 <= j < i ==> (#[trigger] self.pops[j]).needs_bounded() && self.grid.holds(
                        self.pops[j].position,
                    ),
            decreases self.pops.len() - i,
        {
            let pop: &Pop = &self.pops[i];
            if pop.hunger > HUNGER_MAX || pop.energy > ENERGY_MAX || !self.grid.contains(
                pop.position,
            ) {
                assert(!(self@.pops[i as int].needs_bounded() && self@.grid.holds(
                    self@.pops[i as int].position,
                )));
                return false;
            }
            i += 1;
        }
        true
    }

    /// Whether no workplace has more employees than places, and no house more
    /// residents.
    pub fn is_within_capacity(&self) -> (b: bool)
        ensures
            b == self@.within_capacity(),
    {
        let mut i: usize = 0;
        while i < self.workplaces.len()
            invariant
                i <= self.workplaces.len(),
                forall|j: int|
                    0 <= j < i ==> (#[trigger] self@.workplaces[j]).within_capacity(),
            decreases self.workplaces.len() - i,
        {
            if self.workplaces[i].employees.len() > self.workplaces[i].capacity as usize {
                assert(!self@.workplaces[i as int].within_capacity());
                return false;
            }
            assert(self@.workplaces[i as int].within_capacity());
            i += 1;
        }
        let mut k: usize = 0;
        while k < self.houses.len()
            invariant
                k <= self.houses.len(),
                forall|j: int|
                    0 <= j < self.workplaces.len() ==> (#[trigger] self@.workplaces[j])
                        .within_capacity(),
                forall|j: int| 0 <= j < k ==> (#[trigger] self@.houses[j]).within_capacity(),
            decreases self.houses.len() - k,
        {
            if self.houses[k].residents.len() > self.houses[k].capacity as usize {
                assert(!self@.houses[k as int].within_capacity());
                return false;
            }
            assert(self@.houses[k as int].within_capacity());
            k += 1;
        }
        true
    }

    /// Whether the directory is one that the engines can run on.
    pub fn is_valid(&self) -> (b: bool)
        ensures
            b == self.wf(),
    {
        self.grid.is_valid() && self.pops_are_sound() && self.is_within_capacity()
            && ascending_below(&self.pop_ids(), self.next_id) && ascending_below(
            &self.house_ids(),
            self.next_id,
        ) && ascending_below(&self.workplace_ids(), self.next_id) && ascending_below(
            &self.restaurant_ids(),
            self.next_id,
        )
    }
}

/// The first `n` identities of a list without those equal to `id`.
pub open spec fn struck_upto(ids: Seq<u32>, id: u32, n: int) -> Seq<u32>
    decreases n,
{
    if n <= 0 {
        Seq::empty()
    } else {
        let earlier = struck_upto(ids, id, n - 1);
        if ids[n - 1] == id {
            earlier
        } else {
            earlier.push(ids[n - 1])
        }
    }
}

/// A list of identities without those equal to `id`.
pub open spec fn struck(ids: Seq<u32>, id: u32) -> Seq<u32> {
    struck_upto(ids, id, ids.len() as int)
}

/// Where the first of the first `n` pops with the identity `id` stands in
/// the list.
pub open spec fn pop_index_upto(pops: Seq<Pop>, id: u32, n: int) -> Option<int>
    decreases n,
{
    if n <= 0 {
        None
    } else {
        match pop_index_upto(pops, id, n - 1) {
            Some(i) => Some(i),
            None => if pops[n - 1].id == id {
                Some(n - 1)
            } else {
                None
            },
        }
    }
}

/// Where the first pop with the identity `id` stands in the list.
pub open spec fn pop_index(pops: Seq<Pop>, id: u32) -> Option<int> {
    pop_index_upto(pops, id, pops.len() as int)
}

impl DirectoryView {
    /// The directory without the pop of the identity `id`: its record is
    /// gone, and so is its name from every list of employees and residents.
    pub open spec fn without_pop(&self, id: u32) -> DirectoryView {
        DirectoryView {
            pops: match pop_index(self.pops, id) {
                Some(i) => self.pops.remove(i),
                None => self.pops,
            },
            workplaces: Seq::new(
                self.workplaces.len(),
                |k: int|
                    WorkplaceView {
                        employees: struck(self.workplaces[k].employees, id),
                        ..self.workplaces[k]
                    },
            ),
            houses: Seq::new(
                self.houses.len(),
                |k: int|
                    HouseView { residents: struck(self.houses[k].residents, id), ..self.houses[k] },
            ),
            ..*self
        }
    }
}

/// Striking an identity makes a list no longer, and leaves the identity in
/// it nowhere.
pub proof fn lemma_struck_upto(ids: Seq<u32>, id: u32, n: int)
    requires
        0 <= n <= ids.len(),
    ensures
        struck_upto(ids, id, n).len() <= n,
        forall|j: int| 0 <= j < struck_upto(ids, id, n).len() ==> struck_upto(ids, id, n)[j] != id,
        (forall|j: int| 0 <= j < n ==> ids[j] != id) ==> struck_upto(ids, id, n) == ids.take(n),
    decreases n,
{
    if n > 0 {
        lemma_struck_upto(ids, id, n - 1);
        if forall|j: int| 0 <= j < n ==> ids[j] != id {
            assert(ids.take(n) =~= ids.take(n - 1).push(ids[n - 1]));
        }
    } else {
        assert(ids.take(0) =~= Seq::<u32>::empty());
    }
}

/// What a search of the first `n` pops finds: the first match, or nothing
/// where none of them matches.
pub proof fn lemma_pop_index_upto(pops: Seq<Pop>, id: u32, n: int)
    requires
        0 <= n <= pops.len(),
    ensures
        match pop_index_upto(pops, id, n) {
            Some(i) => 0 <= i < n && pops[i].id == id && forall|j: int|
                0 <= j < i ==> pops[j].id != id,
            None => forall|j: int| 0 <= j < n ==> pops[j].id != id,
        },
    decreases n,
{
    if n > 0 {
        lemma_pop_index_upto(pops, id, n - 1);
    }
}

/// A match among the first `n` pops is still the match among the first `m`.
pub proof fn lemma_pop_index_grows(pops: Seq<Pop>, id: u32, n: int, m: int)
    requires
        0 <= n <= m,
        pop_index_upto(pops, id, n).is_some(),
    ensures
        pop_index_upto(pops, id, m) == pop_index_upto(pops, id, n),
    decreases m - n,
{
    if n < m {
        lemma_pop_index_grows(pops, id, n, m - 1);
    }
}

/// Finds the pop with the identity `id`: the first in the list, or nothing
/// where the list has none.
pub fn find_pop(pops: &Vec<Pop>, id: u32) -> (found: Option<usize>)
    ensures
        match found {
            Some(i) => pop_index(pops@, id) == Some(i as int) && i < pops.len() && pops[i as int].id
                == id,
            None => pop_index(pops@, id).is_none(),
        },
{
    let mut i: usize = 0;
    while i < pops.len()
        invariant
            i <= pops.len(),
            pop_index_upto(pops@, id, i as int).is_none(),
        decreases pops.len() - i,
    {
        if pops[i].id == id {
            proof {
                lemma_pop_index_grows(pops@, id, i as int + 1, pops.len() as int);
            }
            return Some(i);
        }
        i += 1;
    }
    None
}

/// Strikes an identity from a list, keeping the others in their order.
pub fn strike(ids: &mut Vec<u32>, id: u32)
    ensures
        final(ids)@ == struck(old(ids)@, id),
        final(ids).len() <= old(ids).len(),
{
    let mut kept: Vec<u32> = Vec::new();
    let mut i: usize = 0;
    while i < ids.len()
        invariant
            i <= ids.len(),
            ids@ == old(ids)@,
            kept@ == struck_upto(ids@, id, i as int),
        decreases ids.len() - i,
    {
        if ids[i] != id {
            kept.push(ids[i]);
        }
        i += 1;
    }
    proof {
        lemma_struck_upto(ids@, id, ids.len() as int);
    }
    *ids = kept;
}

impl Directory {
    /// Removes the pop with the identity `id` and strikes it from every list
    /// of employees and residents, so that the places it held are free
    /// again. Says whether there was such a pop.
    pub fn remove_pop(&mut self, id: u32) -> (removed: bool)
        ensures
            final(self)@ == old(self)@.without_pop(id),
            removed == pop_index(old(self)@.pops, id).is_some(),
            old(self).wf() ==> final(self).wf(),
    {
        let removed: bool = match find_pop(&self.pops, id) {
            Some(i) => {
                self.pops.remove(i);
                true
            },
            None => false,
        };
        let mut w: usize = 0;
        while w < self.workplaces.len()
            invariant
                w <= self.workplaces.len(),
                self.workplaces.len() == old(self).workplaces.len(),
                self.pops@ == old(self)@.without_pop(id).pops,
                self.houses == old(self).houses,
                self.restaurants == old(self).restaurants,
                self.grid == old(self).grid,
                self.next_id == old(self).next_id,
                forall|k: int|
                    0 <= k < w ==> (#[trigger] self.workplaces[k])@ == old(self)@.without_pop(
                        id,
                    ).workplaces[k],
                forall|k: int|
                    w <= k < self.workplaces.len() ==> self.workplaces[k] == old(
                        self,
                    ).workplaces[k],
            decreases self.workplaces.len() - w,
        {
            strike(&mut self.workplaces[w].employees, id);
            w += 1;
        }
        let mut h: usize = 0;
        while h < self.houses.len()
            invariant
                h <= self.houses.len(),
                self.houses.len() == old(self).houses.len(),
                self.pops@ == old(self)@.without_pop(id).pops,
                self@.workplaces =~= old(self)@.without_pop(id).workplaces,
                self.restaurants == old(self).restaurants,
                self.grid == old(self).grid,
                self.next_id == old(self).next_id,
                forall|k: int|
                    0 <= k < h ==> (#[trigger] self.houses[k])@ == old(self)@.without_pop(
                        id,
                    ).houses[k],
                forall|k: int|
                    h <= k < self.houses.len() ==> self.houses[k] == old(self).houses[k],
            decreases self.houses.len() - h,
        {
            strike(&mut self.houses[h].residents, id);
            h += 1;
        }
        proof {
            assert(self@.houses =~= old(self)@.without_pop(id).houses);
            if old(self).wf() {
                old(self)@.lemma_without_pop_keeps_sound(id);
            }
        }
        removed
    }
}

impl DirectoryView {
    /// Removing a pop leaves a sound directory sound.
    pub proof fn lemma_without_pop_keeps_sound(self, id: u32)
        requires
            self.wf(),
        ensures
            self.without_pop(id).wf(),
    {
        let after = self.without_pop(id);
        lemma_pop_index_upto(self.pops, id, self.pops.len() as int);
        assert(after.house_ids() =~= self.house_ids());
        assert(after.workplace_ids() =~= self.workplace_ids());
        assert(after.restaurant_ids() =~= self.restaurant_ids());
        match pop_index(self.pops, id) {
            Some(i) => {
                assert(after.pop_ids() =~= self.pop_ids().remove(i));
                assert forall|j: int| 0 <= j < after.pops.len() implies (#[trigger] after.pops[j])
                    .needs_bounded() && after.grid.holds(after.pops[j].position) by {
                    if j < i {
                        assert(self.pops[j].needs_bounded() && self.grid.holds(
                            self.pops[j].position,
                        ));
                    } else {
                        assert(self.pops[j + 1].needs_bounded() && self.grid.holds(
                            self.pops[j + 1].position,
                        ));
                    }
                }
            },
            None => {
                assert(after.pop_ids() =~= self.pop_ids());
            },
        }
        assert forall|k: int| 0 <= k < after.workplaces.len() implies (
        #[trigger] after.workplaces[k]).within_capacity() by {
            assert(self.workplaces[k].within_capacity());
            lemma_struck_upto(
                self.workplaces[k].employees,
                id,
                self.workplaces[k].employees.len() as int,
            );
        }
        assert forall|k: int| 0 <= k < after.houses.len() implies (#[trigger] after.houses[k])
            .within_capacity() by {
            assert(self.houses[k].within_capacity());
            lemma_struck_upto(
                self.houses[k].residents,
                id,
                self.houses[k].residents.len() as int,
            );
        }
    }
}

} // verus!
