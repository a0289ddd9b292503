//! The figures that a display shows of a directory: how many there are of
//! each kind, how many pops lack a job or a home, and what they add up to.

use vstd::prelude::*;
use crate::agents::{house_views, workplace_views, House, HouseView, Pop, Workplace, WorkplaceView};
use crate::directory::{Directory, DirectoryView};

verus! {

/// The sum of the first `n` of a list of figures.
pub open spec fn total(figures: Seq<int>, n: int) -> int
    decreases n,
{
    if n <= 0 {
        0
    } else {
        total(figures, n - 1) + figures[n - 1]
    }
}

/// How many of the first `n` pops have a job.
pub open spec fn employed_upto(pops: Seq<Pop>, n: int) -> int
    decreases n,
{
    if n <= 0 {
        0
    } else {
        employed_upto(pops, n - 1) + if pops[n - 1].job.is_some() {
            1int
        } else {
            0int
        }
    }
}

/// How many of the first `n` pops have no home.
pub open spec fn homeless_upto(pops: Seq<Pop>, n: int) -> int
    decreases n,
{
    if n <= 0 {
        0
    } else {
        homeless_upto(pops, n - 1) + if pops[n - 1].home.is_none() {
            1int
        } else {
            0int
        }
    }
}

pub open spec fn money_of(pops: Seq<Pop>) -> Seq<int> {
    Seq::new(pops.len(), |i: int| pops[i].money as int)
}

pub open spec fn hunger_of(pops: Seq<Pop>) -> Seq<int> {
    Seq::new(pops.len(), |i: int| pops[i].hunger as int)
}

pub open spec fn energy_of(pops: Seq<Pop>) -> Seq<int> {
    Seq::new(pops.len(), |i: int| pops[i].energy as int)
}

pub open spec fn house_places(houses: Seq<HouseView>) -> Seq<int> {
    Seq::new(houses.len(), |i: int| houses[i].capacity as int)
}

pub open spec fn workplace_places(workplaces: Seq<WorkplaceView>) -> Seq<int> {
    Seq::new(workplaces.len(), |i: int| workplaces[i].capacity as int)
}

/// The figures of a directory.
#[derive(Clone, Copy, Debug, PartialEq, Eq)]
pub struct Census {
    pub population: usize,
    pub employed: usize,
    pub homeless: usize,
    pub total_money: i128,
    pub total_hunger: u128,
    pub total_energy: u128,
    pub houses: usize,
    pub house_capacity: u128,
    pub workplaces: usize,
    pub job_capacity: u128,
}

impl Census {
    /// Whether these are the figures of `directory`.
    pub open spec fn counts(&self, directory: DirectoryView) -> bool {
        let pops = directory.pops;
        let all = pops.len() as int;
        &&& self.population == all
        &&& self.employed == employed_upto(pops, all)
        &&& self.homeless == homeless_upto(pops, all)
        &&& self.total_money == total(money_of(pops), all)
        &&& self.total_hunger == total(hunger_of(pops), all)
        &&& self.total_energy == total(energy_of(pops), all)
        &&& self.houses == directory.houses.len()
        &&& self.house_capacity == total(
            house_places(directory.houses),
            directory.houses.len() as int,
        )
        &&& self.workplaces == directory.workplaces.len()
        &&& self.job_capacity == total(
            workplace_places(directory.workplaces),
            directory.workplaces.len() as int,
        )
    }
}

/// The places of all the houses of a list together.
pub fn total_house_capacity(houses: &Vec<House>) -> (sum: u128)
    ensures
        sum == total(house_places(house_views(houses@)), houses.len() as int),
{
    let ghost places = house_places(house_views(houses@));
    let mut sum: u128 = 0;
    let mut i: usize = 0;
    while i < houses.len()
        invariant
            i <= houses.len(),
            places == house_places(house_views(houses@)),
            sum == total(places, i as int),
            sum <= 0xffff_ffff * i,
        decreases houses.len() - i,
    {
        sum += houses[i].capacity as u128;
        i += 1;
    }
    sum
}

/// The places of all the workplaces of a list together.
pub fn total_job_capacity(workplaces: &Vec<Workplace>) -> (sum: u128)
    ensures
        sum == total(workplace_places(workplace_views(workplaces@)), workplaces.len() as int),
{
    let ghost places = workplace_places(workplace_views(workplaces@));
    let mut sum: u128 = 0;
    let mut i: usize = 0;
    while i < workplaces.len()
        invariant
            i <= workplaces.len(),
            places == workplace_places(workplace_views(workplaces@)),
            sum == total(places, i as int),
            sum <= 0xffff_ffff * i,
        decreases workplaces.len() - i,
    {
        sum += workplaces[i].capacity as u128;
        i += 1;
    }
    sum
}

/// Counts a directory.
pub fn take_census(directory: &Directory) -> (census: Census)
    ensures
        census.counts(directory@),
        census.employed <= census.population,
        census.homeless <= census.population,
{
    let ghost pops = directory@.pops;
    let mut employed: usize = 0;
    let mut homeless: usize = 0;
    let mut total_money: i128 = 0;
    let mut total_hunger: u128 = 0;
    let mut total_energy: u128 = 0;
    let mut i: usize = 0;
    while i < directory.pops.len()
        invariant
            i <= directory.pops.len(),
            pops == directory.pops@,
            employed == employed_upto(pops, i as int),
            homeless == homeless_upto(pops, i as int),
            employed <= i,
            homeless <= i,
            total_money == total(money_of(pops), i as int),
            total_hunger == total(hunger_of(pops), i as int),
            total_energy == total(energy_of(pops), i as int),
            -0x8000_0000 * i <= total_money <= 0x7fff_ffff * i,
            total_hunger <= 0xffff_ffff * i,
            total_energy <= 0xffff_ffff * i,
        decreases directory.pops.len() - i,
    {
        let pop: &Pop = &directory.pops[i];
        if pop.job.is_some() {
            employed += 1;
        }
        if pop.home.is_none() {
            homeless += 1;
        }
        total_money += pop.money as i128;
        total_hunger += pop.hunger as u128;
        total_energy += pop.energy as u128;
        i += 1;
    }
    Census {
        population: directory.pops.len(),
        employed,
        homeless,
        total_money,
        total_hunger,
        total_energy,
        houses: directory.houses.len(),
        house_capacity: total_house_capacity(&directory.houses),
        workplaces: directory.workplaces.len(),
        job_capacity: total_job_capacity(&directory.workplaces),
    }
}

} // verus!
