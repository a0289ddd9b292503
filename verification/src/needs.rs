//! The need and state engine: what a tick does to a pop's hunger, energy and
//! money, and what the pop decides to do next.

use vstd::prelude::*;
use crate::agents::{
    find_house, house_position, house_views, HouseView, House, Pop, PopState, Restaurant,
    ENERGY_MAX, HUNGER_MAX,
};
use crate::chance::draw_below;
use crate::clock::{in_workday, GameClock, WORKDAY_HOURS};
use crate::directory::{Directory, DirectoryView};
use crate::grid::{distance_squared, Grid, Position};

verus! {

/// The hunger above which a pop goes to eat.
pub const HUNGER_THRESHOLD: u32 = 7000;

/// The energy below which a pop goes to sleep.
pub const ENERGY_THRESHOLD: u32 = 2000;

/// The hunger that a tick of eating takes away.
pub const EAT_RATE: u32 = 20;

/// The money that a tick of eating costs.
pub const FOOD_COST: i32 = 1;

/// The energy that a tick of sleeping gives.
pub const SLEEP_RATE: u32 = 10;

/// The number of offsets, on each axis, that an idle pop may wander by.
pub const IDLE_SPAN: u32 = 5;

/// How far back, on each axis, the smallest of those offsets reaches.
pub const IDLE_REACH: u32 = 2;

/// Two draws of a random source, one for each axis.
#[derive(Clone, Copy, Debug, PartialEq, Eq, Structural)]
pub struct Roll {
    pub dx: u32,
    pub dy: u32,
}

/// `v + by`, held at the type's largest value.
pub open spec fn raised(v: u32, by: u32) -> u32 {
    if v + by > u32::MAX {
        u32::MAX
    } else {
        (v + by) as u32
    }
}

/// `v - by`, held at zero.
pub open spec fn lowered(v: u32, by: u32) -> u32 {
    if v < by {
        0
    } else {
        (v - by) as u32
    }
}

/// A sum of money pulled into what a purse can hold.
pub open spec fn purse(amount: int) -> i32 {
    if amount > i32::MAX {
        i32::MAX
    } else if amount < i32::MIN {
        i32::MIN
    } else {
        amount as i32
    }
}

/// What one tick of work pays: the day's salary spread over the ticks of a
/// working day.
pub open spec fn wage(salary: u32, ticks_per_hour: u64) -> int
    recommends
        ticks_per_hour >= 1,
{
    salary as int / (ticks_per_hour * WORKDAY_HOURS)
}

/// Which of the first `n` restaurants is nearest to `from`: the first of
/// them where several are equally near.
pub open spec fn nearest_upto(restaurants: Seq<Restaurant>, from: Position, n: int) -> Option<int>
    decreases n,
{
    if n <= 0 {
        None
    } else {
        match nearest_upto(restaurants, from, n - 1) {
            None => Some(n - 1),
            Some(best) => if distance_squared(from, restaurants[n - 1].position)
                < distance_squared(from, restaurants[best].position) {
                Some(n - 1)
            } else {
                Some(best)
            },
        }
    }
}

/// The position of the restaurant nearest to `from`.
pub open spec fn nearest_restaurant(restaurants: Seq<Restaurant>, from: Position) -> Option<
    Position,
> {
    match nearest_upto(restaurants, from, restaurants.len() as int) {
        Some(best) => Some(restaurants[best].position),
        None => None,
    }
}

/// Where an idle pop at `from` wanders to on the draws `roll`: up to
/// `IDLE_REACH` cells back or forth on each axis, and never off the map.
pub open spec fn idle_destination(from: Position, roll: Roll, grid: Grid) -> Position {
    grid.nearest(
        from.x + roll.dx % IDLE_SPAN - IDLE_REACH,
        from.y + roll.dy % IDLE_SPAN - IDLE_REACH,
    )
}

/// The passing of a tick: a little hungrier, a little more tired.
pub open spec fn drift(pop: Pop) -> Pop {
    Pop { hunger: raised(pop.hunger, 1), energy: lowered(pop.energy, 1), ..pop }
}

/// What the pop decides to do, by its needs first and the hour second. A pop
/// that is already doing what a need asks for does not decide again.
pub open spec fn transition(
    pop: Pop,
    workday: bool,
    restaurants: Seq<Restaurant>,
    houses: Seq<HouseView>,
) -> Pop {
    if pop.hunger > HUNGER_THRESHOLD && pop.state != PopState::Eating {
        Pop {
            state: PopState::Eating,
            destination: nearest_restaurant(restaurants, pop.position),
            ..pop
        }
    } else if pop.energy < ENERGY_THRESHOLD && pop.state != PopState::Sleeping {
        Pop {
            state: PopState::Sleeping,
            destination: match pop.home {
                Some(home) => house_position(houses, home),
                None => None,
            },
            ..pop
        }
    } else if pop.state != PopState::Working && workday {
        Pop {
            state: PopState::Working,
            destination: match pop.job {
                Some(job) => Some(job.position),
                None => None,
            },
            ..pop
        }
    } else if pop.state == PopState::Working && !workday {
        Pop { state: PopState::Idle, destination: None, ..pop }
    } else {
        pop
    }
}

/// What a tick of eating does.
pub open spec fn eat(pop: Pop) -> Pop {
    if pop.hunger > 0 {
        Pop {
            hunger: lowered(pop.hunger, EAT_RATE),
            money: purse(pop.money - FOOD_COST),
            ..pop
        }
    } else {
        Pop { state: PopState::Idle, destination: None, ..pop }
    }
}

/// What a tick of sleeping does.
pub open spec fn sleep(pop: Pop) -> Pop {
    let energy = raised(pop.energy, SLEEP_RATE);
    let hunger = raised(pop.hunger, 1);
    if energy >= ENERGY_MAX {
        Pop { energy, hunger, state: PopState::Idle, destination: None, ..pop }
    } else {
        Pop { energy, hunger, ..pop }
    }
}

/// What a tick of work does: nothing to a pop without a job.
pub open spec fn work(pop: Pop, ticks_per_hour: u64) -> Pop {
    match pop.job {
        Some(job) => Pop {
            money: purse(pop.money + wage(job.salary, ticks_per_hour)),
            energy: lowered(pop.energy, 1),
            ..pop
        },
        None => pop,
    }
}

/// What a tick of idling does: a pop going nowhere picks a cell nearby.
pub open spec fn idle(pop: Pop, grid: Grid, roll: Roll) -> Pop {
    Pop {
        destination: match pop.destination {
            Some(d) => Some(d),
            None => Some(idle_destination(pop.position, roll, grid)),
        },
        energy: lowered(pop.energy, 1),
        hunger: raised(pop.hunger, 1),
        ..pop
    }
}

/// What the pop's state does to it this tick.
pub open spec fn act(pop: Pop, ticks_per_hour: u64, grid: Grid, roll: Roll) -> Pop {
    match pop.state {
        PopState::Eating => eat(pop),
        PopState::Sleeping => sleep(pop),
        PopState::Working => work(pop, ticks_per_hour),
        PopState::Idle => idle(pop, grid, roll),
    }
}

/// Hunger and energy cut back to their limits.
pub open spec fn settle(pop: Pop) -> Pop {
    Pop {
        hunger: if pop.hunger > HUNGER_MAX {
            HUNGER_MAX
        } else {
            pop.hunger
        },
        energy: if pop.energy > ENERGY_MAX {
            ENERGY_MAX
        } else {
            pop.energy
        },
        ..pop
    }
}

/// One tick of the engine on one pop: drift, decide, act, settle.
pub open spec fn updated(
    pop: Pop,
    clock: GameClock,
    restaurants: Seq<Restaurant>,
    houses: Seq<HouseView>,
    grid: Grid,
    roll: Roll,
) -> Pop {
    settle(
        act(
            transition(drift(pop), in_workday(clock.spec_hour()), restaurants, houses),
            clock.ticks_per_hour,
            grid,
            roll,
        ),
    )
}

/// What the nearest of the first `n` restaurants is: none of them is nearer,
/// and none before it is as near.
pub proof fn lemma_nearest_upto(restaurants: Seq<Restaurant>, from: Position, n: int)
    requires
        0 <= n <= restaurants.len(),
    ensures
        match nearest_upto(restaurants, from, n) {
            Some(best) => {
                &&& 0 <= best < n
                &&& forall|j: int|
                    0 <= j < n ==> distance_squared(from, restaurants[best].position)
                        <= distance_squared(from, #[trigger] restaurants[j].position)
                &&& forall|j: int|
                    0 <= j < best ==> distance_squared(from, restaurants[best].position)
                        < distance_squared(from, #[trigger] restaurants[j].position)
            },
            None => n == 0,
        },
    decreases n,
{
    if n > 0 {
        lemma_nearest_upto(restaurants, from, n - 1);
    }
}

/// The position of the restaurant nearest to `pop_position` as the crow
/// flies, the first in the list where several are equally near; nothing
/// where there is no restaurant.
pub fn find_nearest_restaurant(pop_position: Position, restaurants: &Vec<Restaurant>) -> (found:
    Option<Position>)
    ensures
        found == nearest_restaurant(restaurants@, pop_position),
        found.is_none() <==> restaurants.len() == 0,
        found.is_some() ==> exists|best: int|
            {
                &&& 0 <= best < restaurants.len()
                &&& found == Some(#[trigger] restaurants[best].position)
                &&& forall|j: int|
                    0 <= j < restaurants.len() ==> distance_squared(
                        pop_position,
                        restaurants[best].position,
                    ) <= distance_squared(pop_position, #[trigger] restaurants[j].position)
                &&& forall|j: int|
                    0 <= j < best ==> distance_squared(pop_position, restaurants[best].position)
                        < distance_squared(pop_position, #[trigger] restaurants[j].position)
            },
{
    let mut best: Option<usize> = None;
    let mut best_distance: u128 = 0;
    let mut i: usize = 0;
    while i < restaurants.len()
        invariant
            i <= restaurants.len(),
            match best {
                Some(b) => nearest_upto(restaurants@, pop_position, i as int) == Some(b as int)
                    && b < i && best_distance == distance_squared(
                    pop_position,
                    restaurants[b as int].position,
                ),
                None => nearest_upto(restaurants@, pop_position, i as int).is_none(),
            },
        decreases restaurants.len() - i,
    {
        let d: u128 = pop_position.distance_squared_to(restaurants[i].position);
        match best {
            None => {
                best = Some(i);
                best_distance = d;
            },
            Some(_) => {
                if d < best_distance {
                    best = Some(i);
                    best_distance = d;
                }
            },
        }
        i += 1;
    }
    proof {
        lemma_nearest_upto(restaurants@, pop_position, restaurants.len() as int);
    }
    match best {
        Some(b) => Some(restaurants[b].position),
        None => None,
    }
}

/// The position of the house with the identity `id`; nothing where the
/// directory has no such house.
pub fn find_house_position(houses: &Vec<House>, id: u32) -> (found: Option<Position>)
    ensures
        found == house_position(house_views(houses@), id),
{
    match find_house(houses, id) {
        Some(i) => Some(houses[i].position),
        None => None,
    }
}

/// A sum of money pulled into what a purse can hold.
pub fn purse_of(amount: i64) -> (money: i32)
    ensures
        money == purse(amount as int),
{
    if amount > i32::MAX as i64 {
        i32::MAX
    } else if amount < i32::MIN as i64 {
        i32::MIN
    } else {
        amount as i32
    }
}

/// What one tick of work pays on a day's salary of `salary`.
pub fn wage_per_tick(salary: u32, ticks_per_hour: u64) -> (pay: u32)
    requires
        ticks_per_hour >= 1,
    ensures
        pay == wage(salary, ticks_per_hour),
{
    match ticks_per_hour.checked_mul(WORKDAY_HOURS) {
        Some(per_workday) => {
            assert(salary as int / per_workday as int <= salary) by (nonlinear_arith)
                requires
                    per_workday >= 1,
                    salary >= 0,
            ;
            (salary as u64 / per_workday) as u32
        },
        None => {
            assert(salary as int / (ticks_per_hour * WORKDAY_HOURS) == 0) by (nonlinear_arith)
                requires
                    0 <= salary < ticks_per_hour * WORKDAY_HOURS,
            ;
            0
        },
    }
}

/// Where an idle pop at `from` wanders to on the draws `roll`.
pub fn pick_idle_destination(from: Position, roll: Roll, grid: &Grid) -> (to: Position)
    requires
        grid.wf(),
    ensures
        to == idle_destination(from, roll, *grid),
        grid.holds(to),
{
    let x: i64 = from.x as i64 + (roll.dx % IDLE_SPAN) as i64 - IDLE_REACH as i64;
    let y: i64 = from.y as i64 + (roll.dy % IDLE_SPAN) as i64 - IDLE_REACH as i64;
    grid.clamp_point(x, y)
}

/// Runs one tick of the engine on one pop. Afterwards the pop's hunger and
/// energy are within their limits, whatever they were before.
pub fn update_pop(
    pop: Pop,
    clock: &GameClock,
    restaurants: &Vec<Restaurant>,
    houses: &Vec<House>,
    grid: &Grid,
    roll: Roll,
) -> (next: Pop)
    requires
        clock.wf(),
        grid.wf(),
    ensures
        next == updated(pop, *clock, restaurants@, house_views(houses@), *grid, roll),
        next.needs_bounded(),
        next.id == pop.id,
        next.position == pop.position,
        next.job == pop.job,
        next.home == pop.home,
{
    let mut p: Pop = pop;
    p.hunger = p.hunger.saturating_add(1);
    p.energy = p.energy.saturating_sub(1);
    assert(p == drift(pop));

    let workday: bool = clock.is_workday_hour();
    let ghost drifted = p;
    if p.hunger > HUNGER_THRESHOLD && p.state != PopState::Eating {
        p.state = PopState::Eating;
        p.destination = find_nearest_restaurant(p.position, restaurants);
    } else if p.energy < ENERGY_THRESHOLD && p.state != PopState::Sleeping {
        p.state = PopState::Sleeping;
        p.destination = match p.home {
            Some(home) => find_house_position(houses, home),
            None => None,
        };
    } else if p.state != PopState::Working && workday {
        p.state = PopState::Working;
        p.destination = match p.job {
            Some(job) => Some(job.position),
            None => None,
        };
    } else if p.state == PopState::Working && !workday {
        p.state = PopState::Idle;
        p.destination = None;
    }
    assert(p == transition(drifted, workday, restaurants@, house_views(houses@)));

    let ghost decided = p;
    match p.state {
        PopState::Eating => {
            if p.hunger > 0 {
                p.hunger = p.hunger.saturating_sub(EAT_RATE);
                p.money = purse_of(p.money as i64 - FOOD_COST as i64);
            } else {
                p.state = PopState::Idle;
                p.destination = None;
            }
        },
        PopState::Sleeping => {
            p.energy = p.energy.saturating_add(SLEEP_RATE);
            if p.energy >= ENERGY_MAX {
                p.state = PopState::Idle;
                p.destination = None;
            }
            p.hunger = p.hunger.saturating_add(1);
        },
        PopState::Working => {
            match p.job {
                Some(job) => {
                    let pay: u32 = wage_per_tick(job.salary, clock.ticks_per_hour);
                    p.money = purse_of(p.money as i64 + pay as i64);
                    p.energy = p.energy.saturating_sub(1);
                },
                None => {},
            }
        },
        PopState::Idle => {
            if p.destination.is_none() {
                p.destination = Some(pick_idle_destination(p.position, roll, grid));
            }
            p.energy = p.energy.saturating_sub(1);
            p.hunger = p.hunger.saturating_add(1);
        },
    }
    assert(p == act(decided, clock.ticks_per_hour, *grid, roll));

    if p.hunger > HUNGER_MAX {
        p.hunger = HUNGER_MAX;
    }
    if p.energy > ENERGY_MAX {
        p.energy = ENERGY_MAX;
    }
    p
}

/// After a tick of the engine a pop's hunger and energy are within their
/// limits, whatever the pop, the hour, the map and the draws.
pub proof fn lemma_update_bounds_needs(
    pop: Pop,
    clock: GameClock,
    restaurants: Seq<Restaurant>,
    houses: Seq<HouseView>,
    grid: Grid,
    roll: Roll,
)
    ensures
        updated(pop, clock, restaurants, houses, grid, roll).hunger <= HUNGER_MAX,
        updated(pop, clock, restaurants, houses, grid, roll).energy <= ENERGY_MAX,
{
}

/// A pop that has just taken up a state is sent to that state's target, or
/// nowhere: to the nearest restaurant to eat, home to sleep, to its job to
/// work, and nowhere when the working day ends.
pub proof fn lemma_transition_sets_destination(
    pop: Pop,
    workday: bool,
    restaurants: Seq<Restaurant>,
    houses: Seq<HouseView>,
)
    ensures
        ({
            let next = transition(pop, workday, restaurants, houses);
            next.state != pop.state ==> next.destination == match next.state {
                PopState::Eating => nearest_restaurant(restaurants, pop.position),
                PopState::Sleeping => match pop.home {
                    Some(home) => house_position(houses, home),
                    None => None,
                },
                PopState::Working => match pop.job {
                    Some(job) => Some(job.position),
                    None => None,
                },
                PopState::Idle => None,
            }
        }),
{
}

/// The draws for the pop at place `i` of the directory: the centre of the
/// span, which moves an idle pop nowhere, where the list is too short.
pub open spec fn roll_at(rolls: Seq<Roll>, i: int) -> Roll {
    if 0 <= i < rolls.len() {
        rolls[i]
    } else {
        Roll { dx: IDLE_REACH, dy: IDLE_REACH }
    }
}

/// The directory after one tick of the engine on every pop, the pop at place
/// `i` on the draws at place `i`.
pub open spec fn after_needs(directory: DirectoryView, clock: GameClock, rolls: Seq<Roll>)
    -> DirectoryView {
    DirectoryView {
        pops: Seq::new(
            directory.pops.len(),
            |i: int|
                updated(
                    directory.pops[i],
                    clock,
                    directory.restaurants,
                    directory.houses,
                    directory.grid,
                    roll_at(rolls, i),
                ),
        ),
        ..directory
    }
}

/// Runs one tick of the engine on every pop, on the draws given: the pop at
/// place `i` wanders by `rolls[i]` if it wanders at all.
pub fn update_pops_with(directory: &mut Directory, clock: &GameClock, rolls: &Vec<Roll>)
    requires
        old(directory).wf(),
        clock.wf(),
    ensures
        final(directory)@ == after_needs(old(directory)@, *clock, rolls@),
        final(directory).wf(),
{
    let n: usize = directory.pops.len();
    let mut i: usize = 0;
    while i < n
        invariant
            i <= n,
            n == old(directory).pops.len(),
            directory.pops.len() == n,
            clock.wf(),
            old(directory).wf(),
            directory.grid == old(directory).grid,
            directory.houses == old(directory).houses,
            directory.workplaces == old(directory).workplaces,
            directory.restaurants == old(directory).restaurants,
            directory.next_id == old(directory).next_id,
            forall|j: int|
                0 <= j < i ==> directory.pops[j] == updated(
                    old(directory).pops[j],
                    *clock,
                    old(directory).restaurants@,
                    house_views(old(directory).houses@),
                    old(directory).grid,
                    roll_at(rolls@, j),
                ),
            forall|j: int| i <= j < n ==> directory.pops[j] == old(directory).pops[j],
        decreases n - i,
    {
        let roll: Roll = if i < rolls.len() {
            rolls[i]
        } else {
            Roll { dx: IDLE_REACH, dy: IDLE_REACH }
        };
        let pop: Pop = directory.pops[i];
        let next: Pop = update_pop(
            pop,
            clock,
            &directory.restaurants,
            &directory.houses,
            &directory.grid,
            roll,
        );
        directory.pops[i] = next;
        i += 1;
    }
    proof {
        assert(directory@.pops =~= after_needs(old(directory)@, *clock, rolls@).pops);
        lemma_needs_keep_sound(old(directory)@, *clock, rolls@);
    }
}

/// Draws, for each of `count` pops, the two numbers that it may wander by.
pub fn draw_rolls(count: usize) -> (rolls: Vec<Roll>)
    ensures
        rolls.len() == count,
        forall|i: int|
            0 <= i < count ==> (#[trigger] rolls[i]).dx < IDLE_SPAN && rolls[i].dy < IDLE_SPAN,
{
    let mut rolls: Vec<Roll> = Vec::new();
    let mut i: usize = 0;
    while i < count
        invariant
            i <= count,
            rolls.len() == i,
            forall|j: int|
                0 <= j < i ==> (#[trigger] rolls[j]).dx < IDLE_SPAN && rolls[j].dy < IDLE_SPAN,
        decreases count - i,
    {
        let dx: u32 = draw_below(IDLE_SPAN);
        let dy: u32 = draw_below(IDLE_SPAN);
        rolls.push(Roll { dx, dy });
        i += 1;
    }
    rolls
}

/// Runs one tick of the engine on every pop, with fresh draws for each.
/// Whatever was drawn, the directory is what `update_pops_with` makes of it
/// on some list of draws within the span, one for each pop.
pub fn update_pops(directory: &mut Directory, clock: &GameClock)
    requires
        old(directory).wf(),
        clock.wf(),
    ensures
        final(directory).wf(),
        exists|rolls: Seq<Roll>|
            {
                &&& rolls.len() == old(directory)@.pops.len()
                &&& forall|i: int|
                    0 <= i < rolls.len() ==> (#[trigger] rolls[i]).dx < IDLE_SPAN && rolls[i].dy
                        < IDLE_SPAN
                &&& final(directory)@ == after_needs(old(directory)@, *clock, rolls)
            },
{
    let rolls: Vec<Roll> = draw_rolls(directory.pops.len());
    update_pops_with(directory, clock, &rolls);
}

/// After the engine has run on a directory, every pop's hunger and energy are
/// within their limits, whatever they were before, and whatever was drawn.
pub proof fn lemma_needs_stay_bounded(directory: DirectoryView, clock: GameClock, rolls: Seq<Roll>)
    ensures
        forall|i: int|
            0 <= i < directory.pops.len() ==> (#[trigger] after_needs(
                directory,
                clock,
                rolls,
            ).pops[i]).needs_bounded(),
        after_needs(directory, clock, rolls).pops.len() == directory.pops.len(),
{
}

/// The engine leaves a sound directory sound.
pub proof fn lemma_needs_keep_sound(directory: DirectoryView, clock: GameClock, rolls: Seq<Roll>)
    requires
        directory.wf(),
    ensures
        after_needs(directory, clock, rolls).wf(),
{
    let after = after_needs(directory, clock, rolls);
    assert(after.pop_ids() =~= directory.pop_ids());
    assert(after.house_ids() =~= directory.house_ids());
    assert(after.workplace_ids() =~= directory.workplace_ids());
    assert(after.restaurant_ids() =~= directory.restaurant_ids());
    assert forall|j: int| 0 <= j < after.pops.len() implies (#[trigger] after.pops[j])
        .needs_bounded() && after.grid.holds(after.pops[j].position) by {
        assert(directory.pops[j].needs_bounded() && directory.grid.holds(
            directory.pops[j].position,
        ));
    }
}

} // verus!
