use popsim::agents::{PopState, ENERGY_MAX, HUNGER_MAX};
use popsim::clock::ClockCommand;
use popsim::grid::{Grid, Position};
use popsim::needs::Roll;
use popsim::world::World;
use popsim::worldgen::{populate, spawn_tilemap};

fn small_world() -> World {
    let mut world = World::new(Grid::new(16, 16).unwrap());
    let rolls: Vec<u32> = (0..256u32).map(|c| (c * 37 + 11) % 100).collect();
    populate(&mut world.directory, &rolls);
    world.directory.spawn_restaurant(Position::new(8, 8)).unwrap();
    world
}

fn draws(ticks: usize, pops: usize, seed: u32) -> Vec<Vec<Roll>> {
    let mut state = seed;
    let mut all = Vec::new();
    for _ in 0..ticks {
        let mut tick = Vec::new();
        for _ in 0..pops {
            state = state.wrapping_mul(1_103_515_245).wrapping_add(12_345);
            let dx = (state >> 16) % 5;
            state = state.wrapping_mul(1_103_515_245).wrapping_add(12_345);
            let dy = (state >> 16) % 5;
            tick.push(Roll { dx, dy });
        }
        all.push(tick);
    }
    all
}

fn sound(world: &World) -> bool {
    let grid = world.directory.grid;
    world.directory.pops.iter().all(|p| {
        p.hunger <= HUNGER_MAX && p.energy <= ENERGY_MAX && grid.contains(p.position)
    }) && world.directory.workplaces.iter().all(|w| w.employees.len() <= w.capacity as usize)
        && world.directory.houses.iter().all(|h| h.residents.len() <= h.capacity as usize)
}

#[test]
fn new_world_is_empty_at_tick_zero() {
    let world = World::new(Grid::new(4, 5).unwrap());
    assert_eq!(world.clock.current_tick, 0);
    assert!(!world.clock.paused);
    assert_eq!(world.directory.grid, Grid { width: 4, height: 5 });
    assert!(world.directory.pops.is_empty());
    assert!(world.job_market.available_jobs.is_empty());
    assert!(world.housing_market.available_houses.is_empty());
}

#[test]
fn one_tick_runs_the_engines_in_order() {
    let mut world = World::new(Grid::new(16, 16).unwrap());
    let house = world.directory.spawn_house(Position::new(2, 2)).unwrap();
    let work = world.directory.spawn_workplace(Position::new(12, 12)).unwrap();
    let pop = world.directory.spawn_pop(Position::new(5, 5)).unwrap();
    world.directory.pops[0].energy = 5000;
    world.step_with(&vec![Roll { dx: 4, dy: 2 }]);
    assert_eq!(world.clock.current_tick, 1);
    let p = world.directory.pops[0];
    assert_eq!(p.state, PopState::Idle);
    assert_eq!((p.hunger, p.energy), (2, 4998));
    assert_eq!(p.position, Position::new(6, 5));
    assert_eq!(p.job.unwrap().workplace, work);
    assert_eq!(p.home, Some(house));
    assert_eq!(p.destination, Some(Position::new(2, 2)));
    assert_eq!(world.directory.workplaces[0].employees, vec![pop]);
    assert_eq!(world.directory.houses[0].residents, vec![pop]);
    assert!(world.job_market.available_jobs.is_empty());
    assert!(world.housing_market.available_houses.is_empty());
    world.step_with(&Vec::new());
    assert_eq!(world.clock.current_tick, 2);
    assert_eq!(world.directory.pops[0].position, Position::new(5, 5));
    assert_eq!(world.job_market.available_jobs.len(), 1);
    assert_eq!(world.housing_market.available_houses.len(), 1);
}

#[test]
fn paused_world_stands_still() {
    let mut world = small_world();
    world.step_with(&Vec::new());
    world.command(ClockCommand::TogglePause);
    let frozen = world.clone();
    for _ in 0..5 {
        world.step_with(&vec![Roll { dx: 0, dy: 0 }]);
        world.step();
    }
    assert_eq!(world, frozen);
    world.command(ClockCommand::TogglePause);
    world.step_with(&Vec::new());
    assert_eq!(world.clock.current_tick, 2);
    assert_ne!(world, frozen);
}

#[test]
fn commands_touch_nothing_but_the_clock() {
    let mut world = small_world();
    let before = world.clone();
    world.command(ClockCommand::SpeedUp);
    world.command(ClockCommand::SetSpeed(2000));
    assert_eq!(world.clock.speed, 512);
    assert_eq!(world.clock.current_tick, 0);
    assert_eq!(world.directory, before.directory);
    assert_eq!(world.job_market, before.job_market);
    assert_eq!(world.housing_market, before.housing_market);
}

#[test]
fn replay_on_the_same_draws_gives_the_same_state() {
    let first = small_world();
    let pops = first.directory.pops.len();
    assert!(pops > 0);
    let rolls = draws(300, pops, 7);
    let mut a = first.clone();
    let mut b = small_world();
    a.run_with(&rolls);
    b.run_with(&rolls);
    assert_eq!(a, b);
    assert_eq!(a.clock.current_tick, 300);
    let mut c = first.clone();
    for tick in rolls.iter() {
        c.step_with(tick);
    }
    assert_eq!(a, c);
    assert_ne!(a, first);
}

#[test]
fn long_run_keeps_needs_and_capacities_in_range() {
    let mut world = small_world();
    let pops = world.directory.pops.len();
    for tick in draws(2000, pops, 99).iter() {
        world.step_with(tick);
        assert!(sound(&world));
    }
    assert_eq!(world.clock.current_tick, 2000);
    assert_eq!(world.clock.day(), 2);
    assert_eq!(world.directory.pops.len(), pops);
}

#[test]
fn random_run_keeps_needs_and_capacities_in_range() {
    let mut world = World::new(Grid::new(32, 32).unwrap());
    world.directory = spawn_tilemap(world.directory.grid);
    let pops = world.directory.pops.len();
    for _ in 0..700 {
        world.step();
        assert!(sound(&world));
    }
    assert_eq!(world.clock.current_tick, 700);
    assert_eq!(world.directory.pops.len(), pops);
    let employed = world.directory.pops.iter().filter(|p| p.job.is_some()).count();
    let listed: usize = world.directory.workplaces.iter().map(|w| w.employees.len()).sum();
    assert_eq!(employed, listed);
}
