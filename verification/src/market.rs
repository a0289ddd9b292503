//! The market matcher: each tick the open jobs and the open housing are
//! listed afresh and handed, last listed first, to the pops that lack them.

use vstd::prelude::*;
use crate::agents::{
    find_house, find_workplace, house_index, house_views, workplace_index, workplace_views,
    HouseView, Job, Pop, WorkplaceView,
};
use crate::directory::{Directory, DirectoryView};
use crate::grid::Position;

verus! {

/// What every job pays for a day.
pub const SALARY: u32 = 75;

/// The open jobs of a tick: the workplace, the salary, and where it is.
#[derive(Clone, Debug, PartialEq, Eq)]
pub struct JobMarket {
    pub available_jobs: Vec<(u32, u32, Position)>,
}

/// The open housing of a tick: the house, and where it is.
#[derive(Clone, Debug, PartialEq, Eq)]
pub struct HousingMarket {
    pub available_houses: Vec<(u32, Position)>,
}

/// One entry for each of the first `n` workplaces that has a place free, in
/// the order of the directory.
pub open spec fn open_jobs_upto(workplaces: Seq<WorkplaceView>, n: int) -> Seq<
    (u32, u32, Position),
>
    decreases n,
{
    if n <= 0 {
        Seq::empty()
    } else {
        let earlier = open_jobs_upto(workplaces, n - 1);
        let w = workplaces[n - 1];
        if w.has_opening() {
            earlier.push((w.id, SALARY, w.position))
        } else {
            earlier
        }
    }
}

/// One entry for each workplace that has a place free.
pub open spec fn open_jobs(workplaces: Seq<WorkplaceView>) -> Seq<(u32, u32, Position)> {
    open_jobs_upto(workplaces, workplaces.len() as int)
}

/// One entry for each of the first `n` houses that has a place free, in the
/// order of the directory.
pub open spec fn open_houses_upto(houses: Seq<HouseView>, n: int) -> Seq<(u32, Position)>
    decreases n,
{
    if n <= 0 {
        Seq::empty()
    } else {
        let earlier = open_houses_upto(houses, n - 1);
        let h = houses[n - 1];
        if h.has_opening() {
            earlier.push((h.id, h.position))
        } else {
            earlier
        }
    }
}

/// One entry for each house that has a place free.
pub open spec fn open_houses(houses: Seq<HouseView>) -> Seq<(u32, Position)> {
    open_houses_upto(houses, houses.len() as int)
}

/// The directory and the two markets in the middle of a round of matching.
pub struct Matching {
    pub directory: DirectoryView,
    pub jobs: Seq<(u32, u32, Position)>,
    pub houses: Seq<(u32, Position)>,
}

/// The matching once the pop at place `i` has had its turn at the jobs: an
/// unemployed pop takes the entry listed last, and joins the employees of
/// that workplace if the directory still has it.
pub open spec fn hired(m: Matching, i: int) -> Matching {
    let pop = m.directory.pops[i];
    if pop.job.is_none() && m.jobs.len() > 0 {
        let offer = m.jobs.last();
        let employed = Pop {
            job: Some(Job { workplace: offer.0, salary: offer.1, position: offer.2 }),
            ..pop
        };
        let workplaces = m.directory.workplaces;
        Matching {
            directory: DirectoryView {
                pops: m.directory.pops.update(i, employed),
                workplaces: match workplace_index(workplaces, offer.0) {
                    Some(k) => workplaces.update(
                        k,
                        WorkplaceView {
                            employees: workplaces[k].employees.push(pop.id),
                            ..workplaces[k]
                        },
                    ),
                    None => workplaces,
                },
                ..m.directory
            },
            jobs: m.jobs.drop_last(),
            ..m
        }
    } else {
        m
    }
}

/// The matching once the pop at place `i` has had its turn at the housing: a
/// homeless pop takes the entry listed last, sets out for the house, and
/// joins its residents if the directory still has it.
pub open spec fn housed(m: Matching, i: int) -> Matching {
    let pop = m.directory.pops[i];
    if pop.home.is_none() && m.houses.len() > 0 {
        let offer = m.houses.last();
        let settled = Pop { home: Some(offer.0), destination: Some(offer.1), ..pop };
        let houses = m.directory.houses;
        Matching {
            directory: DirectoryView {
                pops: m.directory.pops.update(i, settled),
                houses: match house_index(houses, offer.0) {
                    Some(k) => houses.update(
                        k,
                        HouseView { residents: houses[k].residents.push(pop.id), ..houses[k] },
                    ),
                    None => houses,
                },
                ..m.directory
            },
            houses: m.houses.drop_last(),
            ..m
        }
    } else {
        m
    }
}

/// The matching once the first `n` pops have had their turn, each at the jobs
/// and then at the housing.
pub open spec fn assigned_upto(m: Matching, n: int) -> Matching
    decreases n,
{
    if n <= 0 {
        m
    } else {
        housed(hired(assigned_upto(m, n - 1), n - 1), n - 1)
    }
}

/// The matching once every pop has had its turn.
pub open spec fn assigned(m: Matching) -> Matching {
    assigned_upto(m, m.directory.pops.len() as int)
}

/// A round of the matcher on a directory: the markets are listed afresh, then
/// every pop has its turn.
pub open spec fn matched(directory: DirectoryView) -> Matching {
    assigned(
        Matching {
            directory,
            jobs: open_jobs(directory.workplaces),
            houses: open_houses(directory.houses),
        },
    )
}

impl Default for JobMarket {
    fn default() -> (market: JobMarket)
        ensures
            market.available_jobs@ == Seq::<(u32, u32, Position)>::empty(),
    {
        JobMarket { available_jobs: Vec::new() }
    }
}

impl Default for HousingMarket {
    fn default() -> (market: HousingMarket)
        ensures
            market.available_houses@ == Seq::<(u32, Position)>::empty(),
    {
        HousingMarket { available_houses: Vec::new() }
    }
}

impl JobMarket {
    /// A market with nothing listed.
    pub fn new() -> (market: JobMarket)
        ensures
            market.available_jobs@ == Seq::<(u32, u32, Position)>::empty(),
    {
        JobMarket { available_jobs: Vec::new() }
    }
}

impl HousingMarket {
    /// A market with nothing listed.
    pub fn new() -> (market: HousingMarket)
        ensures
            market.available_houses@ == Seq::<(u32, Position)>::empty(),
    {
        HousingMarket { available_houses: Vec::new() }
    }
}

/// Lists the markets afresh from who works and lives where: whatever they
/// held before is dropped, and each workplace and each house with a place
/// free is listed once.
pub fn manage_markets(
    job_market: &mut JobMarket,
    housing_market: &mut HousingMarket,
    directory: &Directory,
)
    ensures
        final(job_market).available_jobs@ == open_jobs(directory@.workplaces),
        final(housing_market).available_houses@ == open_houses(directory@.houses),
{
    job_market.available_jobs.clear();
    let mut i: usize = 0;
    while i < directory.workplaces.len()
        invariant
            i <= directory.workplaces.len(),
            job_market.available_jobs@ == open_jobs_upto(directory@.workplaces, i as int),
        decreases directory.workplaces.len() - i,
    {
        let workplace = &directory.workplaces[i];
        if workplace.has_opening() {
            job_market.available_jobs.push((workplace.id, SALARY, workplace.position));
        }
        i += 1;
    }
    housing_market.available_houses.clear();
    let mut j: usize = 0;
    while j < directory.houses.len()
        invariant
            j <= directory.houses.len(),
            housing_market.available_houses@ == open_houses_upto(directory@.houses, j as int),
        decreases directory.houses.len() - j,
    {
        let house = &directory.houses[j];
        if house.has_opening() {
            housing_market.available_houses.push((house.id, house.position));
        }
        j += 1;
    }
}

/// Gives the pop at place `i` its turn at the jobs. The housing plays no part
/// in it, so the contract is stated with none listed.
pub fn hire_pop(directory: &mut Directory, job_market: &mut JobMarket, i: usize)
    requires
        i < old(directory).pops.len(),
    ensures
        (Matching {
            directory: final(directory)@,
            jobs: final(job_market).available_jobs@,
            houses: Seq::empty(),
        }) == hired(
            Matching {
                directory: old(directory)@,
                jobs: old(job_market).available_jobs@,
                houses: Seq::empty(),
            },
            i as int,
        ),
{
    if directory.pops[i].job.is_none() {
        match job_market.available_jobs.pop() {
            Some((workplace, salary, position)) => {
                let id: u32 = directory.pops[i].id;
                directory.pops[i].job = Some(Job { workplace, salary, position });
                match find_workplace(&directory.workplaces, workplace) {
                    Some(k) => {
                        directory.workplaces[k].employees.push(id);
                        proof {
                            let before = old(directory)@.workplaces;
                            assert(directory@.workplaces =~= before.update(
                                k as int,
                                WorkplaceView {
                                    employees: before[k as int].employees.push(id),
                                    ..before[k as int]
                                },
                            ));
                        }
                    },
                    None => {},
                }
                proof {
                    assert(directory@.houses =~= old(directory)@.houses);
                    assert(directory@.pops =~= old(directory)@.pops.update(
                        i as int,
                        Pop {
                            job: Some(Job { workplace, salary, position }),
                            ..old(directory)@.pops[i as int]
                        },
                    ));
                }
            },
            None => {},
        }
    }
}

/// Gives the pop at place `i` its turn at the housing. The jobs play no part
/// in it, so the contract is stated with none listed.
pub fn house_pop(directory: &mut Directory, housing_market: &mut HousingMarket, i: usize)
    requires
        i < old(directory).pops.len(),
    ensures
        (Matching {
            directory: final(directory)@,
            jobs: Seq::empty(),
            houses: final(housing_market).available_houses@,
        }) == housed(
            Matching {
                directory: old(directory)@,
                jobs: Seq::empty(),
                houses: old(housing_market).available_houses@,
            },
            i as int,
        ),
{
    if directory.pops[i].home.is_none() {
        match housing_market.available_houses.pop() {
            Some((house, position)) => {
                let id: u32 = directory.pops[i].id;
                directory.pops[i].home = Some(house);
                directory.pops[i].destination = Some(position);
                match find_house(&directory.houses, house) {
                    Some(k) => {
                        directory.houses[k].residents.push(id);
                        proof {
                            let before = old(directory)@.houses;
                            assert(directory@.houses =~= before.update(
                                k as int,
                                HouseView {
                                    residents: before[k as int].residents.push(id),
                                    ..before[k as int]
                                },
                            ));
                        }
                    },
                    None => {},
                }
                proof {
                    assert(directory@.workplaces =~= old(directory)@.workplaces);
                    assert(directory@.pops =~= old(directory)@.pops.update(
                        i as int,
                        Pop {
                            home: Some(house),
                            destination: Some(position),
                            ..old(directory)@.pops[i as int]
                        },
                    ));
                }
            },
            None => {},
        }
    }
}

/// Whether a list of jobs can be handed out without overfilling a workplace:
/// no workplace is listed twice, and every workplace listed has a place free.
pub open spec fn jobs_fresh(workplaces: Seq<WorkplaceView>, jobs: Seq<(u32, u32, Position)>)
    -> bool {
    &&& forall|a: int, b: int| 0 <= a < b < jobs.len() ==> jobs[a].0 != jobs[b].0
    &&& forall|j: int, k: int|
        0 <= j < jobs.len() && 0 <= k < workplaces.len() && workplaces[k].id == jobs[j].0
            ==> workplaces[k].has_opening()
}

/// Whether a list of housing can be handed out without overfilling a house:
/// no house is listed twice, and every house listed has a place free.
pub open spec fn houses_fresh(houses: Seq<HouseView>, listed: Seq<(u32, Position)>) -> bool {
    &&& forall|a: int, b: int| 0 <= a < b < listed.len() ==> listed[a].0 != listed[b].0
    &&& forall|j: int, k: int|
        0 <= j < listed.len() && 0 <= k < houses.len() && houses[k].id == listed[j].0
            ==> houses[k].has_opening()
}

impl Matching {
    /// A sound directory with markets that can be handed out.
    pub open spec fn sound(&self) -> bool {
        &&& self.directory.wf()
        &&& jobs_fresh(self.directory.workplaces, self.jobs)
        &&& houses_fresh(self.directory.houses, self.houses)
    }
}

/// Gives every pop, in the order of the directory, its turn at the jobs and
/// then at the housing. Where the markets were ones that can be handed out,
/// no workplace and no house ends up with more than it has places for.
pub fn assign_jobs_and_housing(
    directory: &mut Directory,
    job_market: &mut JobMarket,
    housing_market: &mut HousingMarket,
)
    ensures
        (Matching {
            directory: final(directory)@,
            jobs: final(job_market).available_jobs@,
            houses: final(housing_market).available_houses@,
        }) == assigned(
            Matching {
                directory: old(directory)@,
                jobs: old(job_market).available_jobs@,
                houses: old(housing_market).available_houses@,
            },
        ),
        (Matching {
            directory: old(directory)@,
            jobs: old(job_market).available_jobs@,
            houses: old(housing_market).available_houses@,
        }).sound() ==> final(directory).wf(),
{
    let ghost start = Matching {
        directory: old(directory)@,
        jobs: old(job_market).available_jobs@,
        houses: old(housing_market).available_houses@,
    };
    let n: usize = directory.pops.len();
    let mut i: usize = 0;
    while i < n
        invariant
            i <= n,
            n == start.directory.pops.len(),
            directory.pops.len() == n,
            (Matching {
                directory: directory@,
                jobs: job_market.available_jobs@,
                houses: housing_market.available_houses@,
            }) == assigned_upto(start, i as int),
        decreases n - i,
    {
        let ghost before = Matching {
            directory: directory@,
            jobs: job_market.available_jobs@,
            houses: housing_market.available_houses@,
        };
        hire_pop(directory, job_market, i);
        let ghost between = Matching {
            directory: directory@,
            jobs: job_market.available_jobs@,
            houses: housing_market.available_houses@,
        };
        assert(between == hired(before, i as int));
        house_pop(directory, housing_market, i);
        assert((Matching {
            directory: directory@,
            jobs: job_market.available_jobs@,
            houses: housing_market.available_houses@,
        }) == housed(between, i as int));
        i += 1;
    }
    proof {
        if start.sound() {
            lemma_assigned_keeps_sound(start, n as int);
        }
    }
}

/// Runs the matcher for one tick: lists the markets afresh, then gives every
/// pop its turn. Afterwards no workplace has more employees than places and
/// no house more residents.
pub fn match_markets(
    directory: &mut Directory,
    job_market: &mut JobMarket,
    housing_market: &mut HousingMarket,
)
    requires
        old(directory).wf(),
    ensures
        (Matching {
            directory: final(directory)@,
            jobs: final(job_market).available_jobs@,
            houses: final(housing_market).available_houses@,
        }) == matched(old(directory)@),
        final(directory).wf(),
{
    manage_markets(job_market, housing_market, directory);
    proof {
        lemma_listing_is_fresh(directory@);
    }
    assign_jobs_and_housing(directory, job_market, housing_market);
}

/// A turn at the jobs keeps a sound matching sound.
pub proof fn lemma_hired_keeps_sound(m: Matching, i: int)
    requires
        m.sound(),
        0 <= i < m.directory.pops.len(),
    ensures
        hired(m, i).sound(),
        hired(m, i).directory.pops.len() == m.directory.pops.len(),
{
    let next = hired(m, i);
    let pop = m.directory.pops[i];
    if pop.job.is_none() && m.jobs.len() > 0 {
        let offer = m.jobs.last();
        let before = m.directory;
        let after = next.directory;
        crate::agents::lemma_workplace_index_upto(
            before.workplaces,
            offer.0,
            before.workplaces.len() as int,
        );
        assert(after.pop_ids() =~= before.pop_ids());
        assert(after.workplace_ids() =~= before.workplace_ids());
        assert(after.house_ids() =~= before.house_ids());
        assert(after.restaurant_ids() =~= before.restaurant_ids());
        assert forall|j: int| 0 <= j < after.pops.len() implies (#[trigger] after.pops[j])
            .needs_bounded() && after.grid.holds(after.pops[j].position) by {
            assert(before.pops[j].needs_bounded() && before.grid.holds(before.pops[j].position));
        }
        assert(m.jobs[m.jobs.len() - 1] == offer);
        assert forall|j: int| 0 <= j < after.workplaces.len() implies (
        #[trigger] after.workplaces[j]).within_capacity() by {
            assert(before.workplaces[j].within_capacity());
        }
        assert forall|j: int, k: int|
            0 <= j < next.jobs.len() && 0 <= k < after.workplaces.len() && after.workplaces[k].id
                == next.jobs[j].0 implies after.workplaces[k].has_opening() by {
            assert(next.jobs[j] == m.jobs[j]);
            assert(before.workplaces[k].id == m.jobs[j].0);
            assert(before.workplaces[k].has_opening());
        }
    }
}

/// A turn at the housing keeps a sound matching sound.
pub proof fn lemma_housed_keeps_sound(m: Matching, i: int)
    requires
        m.sound(),
        0 <= i < m.directory.pops.len(),
    ensures
        housed(m, i).sound(),
        housed(m, i).directory.pops.len() == m.directory.pops.len(),
{
    let next = housed(m, i);
    let pop = m.directory.pops[i];
    if pop.home.is_none() && m.houses.len() > 0 {
        let offer = m.houses.last();
        let before = m.directory;
        let after = next.directory;
        crate::agents::lemma_house_index_upto(before.houses, offer.0, before.houses.len() as int);
        assert(after.pop_ids() =~= before.pop_ids());
        assert(after.workplace_ids() =~= before.workplace_ids());
        assert(after.house_ids() =~= before.house_ids());
        assert(after.restaurant_ids() =~= before.restaurant_ids());
        assert forall|j: int| 0 <= j < after.pops.len() implies (#[trigger] after.pops[j])
            .needs_bounded() && after.grid.holds(after.pops[j].position) by {
            assert(before.pops[j].needs_bounded() && before.grid.holds(before.pops[j].position));
        }
        assert(m.houses[m.houses.len() - 1] == offer);
        assert forall|j: int| 0 <= j < after.houses.len() implies (#[trigger] after.houses[j])
            .within_capacity() by {
            assert(before.houses[j].within_capacity());
        }
        assert forall|j: int, k: int|
            0 <= j < next.houses.len() && 0 <= k < after.houses.len() && after.houses[k].id
                == next.houses[j].0 implies after.houses[k].has_opening() by {
            assert(next.houses[j] == m.houses[j]);
            assert(before.houses[k].id == m.houses[j].0);
            assert(before.houses[k].has_opening());
        }
    }
}

/// The turns of the first `n` pops keep a sound matching sound.
pub proof fn lemma_assigned_keeps_sound(m: Matching, n: int)
    requires
        m.sound(),
        0 <= n <= m.directory.pops.len(),
    ensures
        assigned_upto(m, n).sound(),
        assigned_upto(m, n).directory.pops.len() == m.directory.pops.len(),
    decreases n,
{
    if n > 0 {
        lemma_assigned_keeps_sound(m, n - 1);
        let earlier = assigned_upto(m, n - 1);
        lemma_hired_keeps_sound(earlier, n - 1);
        lemma_housed_keeps_sound(hired(earlier, n - 1), n - 1);
    }
}

/// What the listing of the first `n` workplaces holds: each entry is a
/// workplace among them with a place free, and the entries stand in the
/// order of their identities.
pub proof fn lemma_open_jobs_upto(workplaces: Seq<WorkplaceView>, n: int)
    requires
        0 <= n <= workplaces.len(),
        forall|a: int, b: int| 0 <= a < b < workplaces.len() ==> workplaces[a].id < workplaces[b].id,
    ensures
        forall|j: int|
            0 <= j < open_jobs_upto(workplaces, n).len() ==> {
                let k = source_place(workplaces, #[trigger] open_jobs_upto(workplaces, n)[j].0);
                &&& 0 <= k < n
                &&& workplaces[k].id == open_jobs_upto(workplaces, n)[j].0
                &&& workplaces[k].has_opening()
            },
        forall|a: int, b: int|
            0 <= a < b < open_jobs_upto(workplaces, n).len() ==> open_jobs_upto(workplaces, n)[a].0
                < open_jobs_upto(workplaces, n)[b].0,
    decreases n,
{
    if n > 0 {
        lemma_open_jobs_upto(workplaces, n - 1);
        let earlier = open_jobs_upto(workplaces, n - 1);
        let w = workplaces[n - 1];
        crate::agents::lemma_workplace_index_upto(workplaces, w.id, workplaces.len() as int);
        assert(source_place(workplaces, w.id) == n - 1);
        let now = open_jobs_upto(workplaces, n);
        assert forall|a: int, b: int| 0 <= a < b < now.len() implies now[a].0 < now[b].0 by {
            if b == earlier.len() {
                let k = source_place(workplaces, earlier[a].0);
                assert(workplaces[k].id < workplaces[n - 1].id);
            }
        }
    }
}

/// Where in the list the workplace with the identity `id` stands, or -1.
pub open spec fn source_place(workplaces: Seq<WorkplaceView>, id: u32) -> int {
    match workplace_index(workplaces, id) {
        Some(k) => k,
        None => -1,
    }
}

/// Where in the list the house with the identity `id` stands, or -1.
pub open spec fn house_place(houses: Seq<HouseView>, id: u32) -> int {
    match house_index(houses, id) {
        Some(k) => k,
        None => -1,
    }
}

/// What the listing of the first `n` houses holds: each entry is a house
/// among them with a place free, and the entries stand in the order of their
/// identities.
pub proof fn lemma_open_houses_upto(houses: Seq<HouseView>, n: int)
    requires
        0 <= n <= houses.len(),
        forall|a: int, b: int| 0 <= a < b < houses.len() ==> houses[a].id < houses[b].id,
    ensures
        forall|j: int|
            0 <= j < open_houses_upto(houses, n).len() ==> {
                let k = house_place(houses, #[trigger] open_houses_upto(houses, n)[j].0);
                &&& 0 <= k < n
                &&& houses[k].id == open_houses_upto(houses, n)[j].0
                &&& houses[k].has_opening()
            },
        forall|a: int, b: int|
            0 <= a < b < open_houses_upto(houses, n).len() ==> open_houses_upto(houses, n)[a].0
                < open_houses_upto(houses, n)[b].0,
    decreases n,
{
    if n > 0 {
        lemma_open_houses_upto(houses, n - 1);
        let earlier = open_houses_upto(houses, n - 1);
        let h = houses[n - 1];
        crate::agents::lemma_house_index_upto(houses, h.id, houses.len() as int);
        assert(house_place(houses, h.id) == n - 1);
        let now = open_houses_upto(houses, n);
        assert forall|a: int, b: int| 0 <= a < b < now.len() implies now[a].0 < now[b].0 by {
            if b == earlier.len() {
                let k = house_place(houses, earlier[a].0);
                assert(houses[k].id < houses[n - 1].id);
            }
        }
    }
}

/// The markets listed afresh from a sound directory can be handed out.
pub proof fn lemma_listing_is_fresh(directory: DirectoryView)
    requires
        directory.wf(),
    ensures
        (Matching {
            directory,
            jobs: open_jobs(directory.workplaces),
            houses: open_houses(directory.houses),
        }).sound(),
{
    let workplaces = directory.workplaces;
    let houses = directory.houses;
    assert forall|a: int, b: int| 0 <= a < b < workplaces.len() implies workplaces[a].id
        < workplaces[b].id by {
        assert(directory.workplace_ids()[a] < directory.workplace_ids()[b]);
    }
    assert forall|a: int, b: int| 0 <= a < b < houses.len() implies houses[a].id < houses[b].id by {
        assert(directory.house_ids()[a] < directory.house_ids()[b]);
    }
    lemma_open_jobs_upto(workplaces, workplaces.len() as int);
    lemma_open_houses_upto(houses, houses.len() as int);
    let jobs = open_jobs(workplaces);
    let listed = open_houses(houses);
    assert forall|j: int, k: int|
        0 <= j < jobs.len() && 0 <= k < workplaces.len() && workplaces[k].id
            == jobs[j].0 implies workplaces[k].has_opening() by {
        let source = source_place(workplaces, jobs[j].0);
        assert(source == k) by {
            if source < k {
                assert(workplaces[source].id < workplaces[k].id);
            } else if k < source {
                assert(workplaces[k].id < workplaces[source].id);
            }
        }
    }
    assert forall|j: int, k: int|
        0 <= j < listed.len() && 0 <= k < houses.len() && houses[k].id
            == listed[j].0 implies houses[k].has_opening() by {
        let source = house_place(houses, listed[j].0);
        assert(source == k) by {
            if source < k {
                assert(houses[source].id < houses[k].id);
            } else if k < source {
                assert(houses[k].id < houses[source].id);
            }
        }
    }
}

/// After a round of the matcher on a sound directory no workplace has more
/// employees than places and no house more residents than places, and the
/// directory is sound again for the next tick.
pub proof fn lemma_matching_respects_capacity(directory: DirectoryView)
    requires
        directory.wf(),
    ensures
        matched(directory).directory.wf(),
        forall|k: int|
            0 <= k < matched(directory).directory.workplaces.len() ==> (#[trigger] matched(
                directory,
            ).directory.workplaces[k]).employees.len() <= matched(
                directory,
            ).directory.workplaces[k].capacity,
        forall|k: int|
            0 <= k < matched(directory).directory.houses.len() ==> (#[trigger] matched(
                directory,
            ).directory.houses[k]).residents.len() <= matched(directory).directory.houses[k].capacity,
{
    lemma_listing_is_fresh(directory);
    lemma_assigned_keeps_sound(
        Matching {
            directory,
            jobs: open_jobs(directory.workplaces),
            houses: open_houses(directory.houses),
        },
        directory.pops.len() as int,
    );
    let after = matched(directory).directory;
    assert forall|k: int| 0 <= k < after.workplaces.len() implies (#[trigger] after.workplaces[k])
        .employees.len() <= after.workplaces[k].capacity by {
        assert(after.workplaces[k].within_capacity());
    }
    assert forall|k: int| 0 <= k < after.houses.len() implies (#[trigger] after.houses[k])
        .residents.len() <= after.houses[k].capacity by {
        assert(after.houses[k].within_capacity());
    }
}

} // verus!
