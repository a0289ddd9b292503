use popsim::agents::Job;
use popsim::directory::Directory;
use popsim::grid::{Grid, Position};
use popsim::stats::{take_census, Census};

#[test]
fn census_of_an_empty_directory_is_all_zero() {
    let d = Directory::new(Grid::new(4, 4).unwrap());
    assert_eq!(
        take_census(&d),
        Census {
            population: 0,
            employed: 0,
            homeless: 0,
            total_money: 0,
            total_hunger: 0,
            total_energy: 0,
            houses: 0,
            house_capacity: 0,
            workplaces: 0,
            job_capacity: 0,
        }
    );
}

#[test]
fn census_counts_and_adds_up() {
    let mut d = Directory::new(Grid::new(8, 8).unwrap());
    for i in 0..3 {
        d.spawn_pop(Position::new(i, 0)).unwrap();
    }
    d.spawn_house(Position::new(0, 1)).unwrap();
    d.spawn_house(Position::new(1, 1)).unwrap();
    d.spawn_workplace(Position::new(0, 2)).unwrap();
    d.workplaces[0].capacity = 7;
    d.pops[0].money = -250;
    d.pops[0].hunger = 10;
    d.pops[0].energy = 9000;
    d.pops[0].job = Some(Job { workplace: 5, salary: 75, position: Position::new(0, 2) });
    d.pops[1].money = 40;
    d.pops[1].hunger = 500;
    d.pops[1].home = Some(3);
    d.pops[2].job = Some(Job { workplace: 5, salary: 75, position: Position::new(0, 2) });
    d.pops[2].home = Some(4);
    assert_eq!(
        take_census(&d),
        Census {
            population: 3,
            employed: 2,
            homeless: 1,
            total_money: -110,
            total_hunger: 510,
            total_energy: 9200,
            houses: 2,
            house_capacity: 8,
            workplaces: 1,
            job_capacity: 7,
        }
    );
}

#[test]
fn census_totals_do_not_overflow() {
    let mut d = Directory::new(Grid::new(8, 8).unwrap());
    for i in 0..4 {
        d.spawn_pop(Position::new(i, 0)).unwrap();
        d.spawn_house(Position::new(i, 1)).unwrap();
    }
    for pop in d.pops.iter_mut() {
        pop.money = i32::MIN;
        pop.hunger = u32::MAX;
        pop.energy = u32::MAX;
    }
    for house in d.houses.iter_mut() {
        house.capacity = u32::MAX;
    }
    let census = take_census(&d);
    assert_eq!(census.total_money, 4 * (i32::MIN as i128));
    assert_eq!(census.total_hunger, 4 * (u32::MAX as u128));
    assert_eq!(census.total_energy, 4 * (u32::MAX as u128));
    assert_eq!(census.house_capacity, 4 * (u32::MAX as u128));
    assert_eq!(census.homeless, 4);
    assert_eq!(census.employed, 0);
}
