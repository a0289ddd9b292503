use popsim::agents::{find_house, find_workplace, Job};
use popsim::directory::Directory;
use popsim::grid::{Grid, Position};
use popsim::market::{
    assign_jobs_and_housing, hire_pop, house_pop, manage_markets, match_markets, HousingMarket,
    JobMarket, SALARY,
};

fn directory() -> Directory {
    Directory::new(Grid::new(32, 32).unwrap())
}

fn within_capacity(directory: &Directory) -> bool {
    directory.workplaces.iter().all(|w| w.employees.len() <= w.capacity as usize)
        && directory.houses.iter().all(|h| h.residents.len() <= h.capacity as usize)
}

#[test]
fn new_markets_are_empty() {
    assert!(JobMarket::new().available_jobs.is_empty());
    assert!(HousingMarket::new().available_houses.is_empty());
}

#[test]
fn full_workplace_is_not_listed_until_a_place_is_freed() {
    let mut d = directory();
    let id = d.spawn_workplace(Position::new(3, 3)).unwrap();
    d.workplaces[0].capacity = 1;
    d.workplaces[0].employees.push(42);
    let mut jobs = JobMarket::new();
    let mut houses = HousingMarket::new();
    manage_markets(&mut jobs, &mut houses, &d);
    assert_eq!(jobs.available_jobs.len(), 0);
    d.workplaces[0].employees.clear();
    manage_markets(&mut jobs, &mut houses, &d);
    assert_eq!(jobs.available_jobs, vec![(id, 75, Position::new(3, 3))]);
}

#[test]
fn markets_list_each_open_workplace_and_house_once() {
    let mut d = directory();
    let w0 = d.spawn_workplace(Position::new(1, 1)).unwrap();
    let h0 = d.spawn_house(Position::new(2, 2)).unwrap();
    let w1 = d.spawn_workplace(Position::new(3, 3)).unwrap();
    let h1 = d.spawn_house(Position::new(4, 4)).unwrap();
    let w2 = d.spawn_workplace(Position::new(5, 5)).unwrap();
    d.workplaces[1].capacity = 0;
    d.houses[0].residents = vec![9, 8, 7, 6];
    d.workplaces[0].employees = vec![1, 2, 3];
    let mut jobs = JobMarket { available_jobs: vec![(77, 1, Position::new(0, 0))] };
    let mut houses = HousingMarket { available_houses: vec![(78, Position::new(0, 0))] };
    manage_markets(&mut jobs, &mut houses, &d);
    assert_eq!(
        jobs.available_jobs,
        vec![(w0, SALARY, Position::new(1, 1)), (w2, SALARY, Position::new(5, 5))]
    );
    assert_eq!(houses.available_houses, vec![(h1, Position::new(4, 4))]);
    assert_eq!((w0, h0, w1, h1, w2), (0, 1, 2, 3, 4));
}

#[test]
fn unemployed_pop_takes_the_job_listed_last() {
    let mut d = directory();
    let w0 = d.spawn_workplace(Position::new(1, 1)).unwrap();
    let w1 = d.spawn_workplace(Position::new(2, 2)).unwrap();
    let p = d.spawn_pop(Position::new(9, 9)).unwrap();
    let mut jobs = JobMarket::new();
    let mut houses = HousingMarket::new();
    match_markets(&mut d, &mut jobs, &mut houses);
    assert_eq!(
        d.pops[0].job,
        Some(Job { workplace: w1, salary: 75, position: Position::new(2, 2) })
    );
    assert_eq!(d.workplaces[1].employees, vec![p]);
    assert!(d.workplaces[0].employees.is_empty());
    assert_eq!(jobs.available_jobs, vec![(w0, 75, Position::new(1, 1))]);
    assert_eq!(d.pops[0].home, None);
    assert_eq!(d.pops[0].destination, None);
}

#[test]
fn homeless_pop_takes_a_house_and_sets_out_for_it() {
    let mut d = directory();
    let h = d.spawn_house(Position::new(6, 7)).unwrap();
    let p = d.spawn_pop(Position::new(9, 9)).unwrap();
    let w = d.spawn_workplace(Position::new(1, 1)).unwrap();
    let mut jobs = JobMarket::new();
    let mut houses = HousingMarket::new();
    match_markets(&mut d, &mut jobs, &mut houses);
    assert_eq!(d.pops[0].home, Some(h));
    assert_eq!(d.pops[0].destination, Some(Position::new(6, 7)));
    assert_eq!(d.houses[0].residents, vec![p]);
    assert_eq!(d.pops[0].job.unwrap().workplace, w);
    assert_eq!(d.workplaces[0].employees, vec![p]);
    assert!(jobs.available_jobs.is_empty());
    assert!(houses.available_houses.is_empty());
    assert_eq!(d.pops[0].position, Position::new(9, 9));
}

#[test]
fn each_workplace_takes_one_pop_a_tick_until_it_is_full() {
    let mut d = directory();
    d.spawn_workplace(Position::new(1, 1)).unwrap();
    d.workplaces[0].capacity = 2;
    let a = d.spawn_pop(Position::new(5, 5)).unwrap();
    let b = d.spawn_pop(Position::new(6, 6)).unwrap();
    d.spawn_pop(Position::new(7, 7)).unwrap();
    let mut jobs = JobMarket::new();
    let mut houses = HousingMarket::new();
    match_markets(&mut d, &mut jobs, &mut houses);
    assert_eq!(d.workplaces[0].employees, vec![a]);
    assert!(d.pops[1].job.is_none());
    match_markets(&mut d, &mut jobs, &mut houses);
    assert_eq!(d.workplaces[0].employees, vec![a, b]);
    for _ in 0..10 {
        match_markets(&mut d, &mut jobs, &mut houses);
        assert_eq!(d.workplaces[0].employees, vec![a, b]);
        assert!(d.pops[2].job.is_none());
        assert!(jobs.available_jobs.is_empty());
        assert!(within_capacity(&d));
    }
}

#[test]
fn house_fills_to_its_capacity_and_no_further() {
    let mut d = directory();
    d.spawn_house(Position::new(1, 1)).unwrap();
    for i in 0..6 {
        d.spawn_pop(Position::new(5 + i, 5)).unwrap();
    }
    let mut jobs = JobMarket::new();
    let mut houses = HousingMarket::new();
    for tick in 1..=8usize {
        match_markets(&mut d, &mut jobs, &mut houses);
        assert_eq!(d.houses[0].residents.len(), tick.min(4));
        assert!(within_capacity(&d));
    }
    assert_eq!(d.houses[0].residents, vec![1, 2, 3, 4]);
    assert_eq!(d.pops[4].home, None);
    assert_eq!(d.pops[5].home, None);
    assert_eq!(d.pops[3].destination, Some(Position::new(1, 1)));
}

#[test]
fn employed_pop_leaves_the_market_alone() {
    let mut d = directory();
    d.spawn_workplace(Position::new(1, 1)).unwrap();
    d.spawn_pop(Position::new(5, 5)).unwrap();
    let held = Job { workplace: 50, salary: 10, position: Position::new(0, 0) };
    d.pops[0].job = Some(held);
    d.pops[0].home = Some(60);
    let mut jobs = JobMarket::new();
    let mut houses = HousingMarket::new();
    match_markets(&mut d, &mut jobs, &mut houses);
    assert_eq!(d.pops[0].job, Some(held));
    assert_eq!(d.pops[0].home, Some(60));
    assert_eq!(jobs.available_jobs.len(), 1);
    assert!(d.workplaces[0].employees.is_empty());
}

#[test]
fn entry_for_a_vanished_workplace_is_taken_and_skipped() {
    let mut d = directory();
    d.spawn_workplace(Position::new(1, 1)).unwrap();
    d.spawn_house(Position::new(2, 2)).unwrap();
    d.spawn_pop(Position::new(5, 5)).unwrap();
    let before = (d.workplaces.clone(), d.houses.clone());
    let mut jobs = JobMarket { available_jobs: vec![(99, 50, Position::new(9, 9))] };
    let mut houses = HousingMarket { available_houses: vec![(98, Position::new(8, 8))] };
    assign_jobs_and_housing(&mut d, &mut jobs, &mut houses);
    assert_eq!(
        d.pops[0].job,
        Some(Job { workplace: 99, salary: 50, position: Position::new(9, 9) })
    );
    assert_eq!(d.pops[0].home, Some(98));
    assert_eq!(d.pops[0].destination, Some(Position::new(8, 8)));
    assert_eq!((d.workplaces.clone(), d.houses.clone()), before);
    assert!(jobs.available_jobs.is_empty());
    assert!(houses.available_houses.is_empty());
}

#[test]
fn turns_are_taken_one_pop_at_a_time() {
    let mut d = directory();
    let w = d.spawn_workplace(Position::new(1, 1)).unwrap();
    let h = d.spawn_house(Position::new(2, 2)).unwrap();
    let a = d.spawn_pop(Position::new(5, 5)).unwrap();
    let b = d.spawn_pop(Position::new(6, 6)).unwrap();
    let mut jobs = JobMarket::new();
    let mut houses = HousingMarket::new();
    manage_markets(&mut jobs, &mut houses, &d);
    hire_pop(&mut d, &mut jobs, 1);
    assert_eq!(d.pops[1].job.unwrap().workplace, w);
    assert_eq!(d.workplaces[0].employees, vec![b]);
    hire_pop(&mut d, &mut jobs, 0);
    assert!(d.pops[0].job.is_none());
    house_pop(&mut d, &mut houses, 0);
    assert_eq!(d.pops[0].home, Some(h));
    assert_eq!(d.houses[0].residents, vec![a]);
    house_pop(&mut d, &mut houses, 0);
    house_pop(&mut d, &mut houses, 1);
    assert_eq!(d.houses[0].residents, vec![a]);
    assert_eq!(d.pops[1].home, None);
}

#[test]
fn lookups_find_the_first_record_with_an_identity() {
    let mut d = directory();
    d.spawn_workplace(Position::new(1, 1)).unwrap();
    d.spawn_house(Position::new(2, 2)).unwrap();
    d.spawn_workplace(Position::new(3, 3)).unwrap();
    d.spawn_house(Position::new(4, 4)).unwrap();
    assert_eq!(find_workplace(&d.workplaces, 0), Some(0));
    assert_eq!(find_workplace(&d.workplaces, 2), Some(1));
    assert_eq!(find_workplace(&d.workplaces, 1), None);
    assert_eq!(find_house(&d.houses, 1), Some(0));
    assert_eq!(find_house(&d.houses, 3), Some(1));
    assert_eq!(find_house(&d.houses, 4), None);
    assert_eq!(find_house(&Vec::new(), 0), None);
}
