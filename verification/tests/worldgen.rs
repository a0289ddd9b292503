use popsim::agents::{Pop, PopState};
use popsim::directory::Directory;
use popsim::grid::{Grid, Position};
use popsim::worldgen::{cell_number, place_tile, populate, spawn_tilemap, tile_kind, TileKind};

#[test]
fn draws_fall_into_four_bands() {
    assert_eq!(tile_kind(0), TileKind::Empty);
    assert_eq!(tile_kind(69), TileKind::Empty);
    assert_eq!(tile_kind(70), TileKind::Pop);
    assert_eq!(tile_kind(84), TileKind::Pop);
    assert_eq!(tile_kind(85), TileKind::House);
    assert_eq!(tile_kind(94), TileKind::House);
    assert_eq!(tile_kind(95), TileKind::Workplace);
    assert_eq!(tile_kind(99), TileKind::Workplace);
    assert_eq!(tile_kind(u32::MAX), TileKind::Workplace);
    let mut counts = [0u32; 4];
    for roll in 0..100 {
        match tile_kind(roll) {
            TileKind::Empty => counts[0] += 1,
            TileKind::Pop => counts[1] += 1,
            TileKind::House => counts[2] += 1,
            TileKind::Workplace => counts[3] += 1,
        }
    }
    assert_eq!(counts, [70, 15, 10, 5]);
}

#[test]
fn cells_are_numbered_column_by_column() {
    assert_eq!(cell_number(0, 0, 32), 0);
    assert_eq!(cell_number(0, 31, 32), 31);
    assert_eq!(cell_number(1, 0, 32), 32);
    assert_eq!(cell_number(3, 2, 5), 17);
    assert_eq!(
        cell_number(u32::MAX, u32::MAX - 1, u32::MAX),
        u32::MAX as u64 * u32::MAX as u64 + (u32::MAX as u64 - 1)
    );
}

#[test]
fn spawned_records_start_as_they_should() {
    let mut d = Directory::new(Grid::new(8, 8).unwrap());
    assert_eq!(d.spawn_pop(Position::new(1, 2)), Some(0));
    assert_eq!(d.spawn_house(Position::new(2, 2)), Some(1));
    assert_eq!(d.spawn_workplace(Position::new(3, 2)), Some(2));
    assert_eq!(d.spawn_restaurant(Position::new(4, 2)), Some(3));
    assert_eq!(d.next_id, 4);
    let pop = d.pops[0];
    assert_eq!(pop, Pop::new(0, Position::new(1, 2)));
    assert_eq!((pop.money, pop.hunger, pop.energy), (100, 0, 100));
    assert_eq!((pop.job, pop.home, pop.destination), (None, None, None));
    assert_eq!(pop.state, PopState::Idle);
    assert_eq!(PopState::default(), PopState::Idle);
    assert_eq!((d.houses[0].id, d.houses[0].capacity), (1, 4));
    assert!(d.houses[0].residents.is_empty());
    assert!(d.houses[0].has_opening());
    assert_eq!(d.houses[0].occupancy(), 0);
    assert_eq!((d.workplaces[0].id, d.workplaces[0].capacity), (2, 10));
    assert!(d.workplaces[0].employees.is_empty());
    assert!(d.workplaces[0].has_opening());
    assert_eq!(d.workplaces[0].occupancy(), 0);
    assert_eq!((d.restaurants[0].id, d.restaurants[0].capacity), (3, 20));
    assert_eq!(d.restaurants[0].position, Position::new(4, 2));
}

#[test]
fn nothing_is_spawned_off_the_map_or_without_an_identity() {
    let mut d = Directory::new(Grid::new(8, 8).unwrap());
    assert_eq!(d.spawn_pop(Position::new(8, 0)), None);
    assert_eq!(d.spawn_house(Position::new(0, 8)), None);
    assert_eq!(d.spawn_workplace(Position::new(9, 9)), None);
    assert_eq!(d.spawn_restaurant(Position::new(u32::MAX, 0)), None);
    assert_eq!(d, Directory::new(Grid::new(8, 8).unwrap()));
    d.next_id = u32::MAX;
    assert_eq!(d.spawn_pop(Position::new(1, 1)), None);
    assert_eq!(d.spawn_house(Position::new(1, 1)), None);
    assert_eq!(d.spawn_workplace(Position::new(1, 1)), None);
    assert_eq!(d.spawn_restaurant(Position::new(1, 1)), None);
    assert!(d.pops.is_empty() && d.houses.is_empty());
    assert!(d.workplaces.is_empty() && d.restaurants.is_empty());
    d.next_id = u32::MAX - 1;
    assert_eq!(d.spawn_pop(Position::new(1, 1)), Some(u32::MAX - 1));
    assert_eq!(d.next_id, u32::MAX);
}

#[test]
fn place_tile_spawns_by_kind() {
    let mut d = Directory::new(Grid::new(8, 8).unwrap());
    assert_eq!(place_tile(&mut d, TileKind::Empty, Position::new(0, 0)), None);
    assert_eq!(d.next_id, 0);
    assert_eq!(place_tile(&mut d, TileKind::Workplace, Position::new(0, 1)), Some(0));
    assert_eq!(place_tile(&mut d, TileKind::Pop, Position::new(0, 2)), Some(1));
    assert_eq!(place_tile(&mut d, TileKind::House, Position::new(0, 3)), Some(2));
    assert_eq!(place_tile(&mut d, TileKind::House, Position::new(0, 8)), None);
    assert_eq!((d.pops.len(), d.houses.len(), d.workplaces.len()), (1, 1, 1));
    assert_eq!(d.workplaces[0].position, Position::new(0, 1));
    assert_eq!(d.pops[0].position, Position::new(0, 2));
    assert_eq!(d.houses[0].position, Position::new(0, 3));
}

#[test]
fn populate_decides_each_cell_by_its_draw() {
    let mut d = Directory::new(Grid::new(2, 3).unwrap());
    populate(&mut d, &vec![70, 85, 95, 0, 84, 99]);
    assert_eq!(d.pops.len(), 2);
    assert_eq!((d.pops[0].id, d.pops[0].position), (0, Position::new(0, 0)));
    assert_eq!((d.pops[1].id, d.pops[1].position), (3, Position::new(1, 1)));
    assert_eq!(d.houses.len(), 1);
    assert_eq!((d.houses[0].id, d.houses[0].position), (1, Position::new(0, 1)));
    assert_eq!(d.workplaces.len(), 2);
    assert_eq!((d.workplaces[0].id, d.workplaces[0].position), (2, Position::new(0, 2)));
    assert_eq!((d.workplaces[1].id, d.workplaces[1].position), (4, Position::new(1, 2)));
    assert!(d.restaurants.is_empty());
    assert_eq!(d.next_id, 5);
}

#[test]
fn populate_leaves_cells_without_a_draw_empty() {
    let mut d = Directory::new(Grid::new(4, 4).unwrap());
    populate(&mut d, &vec![99, 99]);
    assert_eq!(d.workplaces.len(), 2);
    assert_eq!(d.workplaces[1].position, Position::new(0, 1));
    assert_eq!(d.next_id, 2);
    let mut e = Directory::new(Grid::new(4, 4).unwrap());
    populate(&mut e, &Vec::new());
    assert_eq!(e, Directory::new(Grid::new(4, 4).unwrap()));
    let mut f = Directory::new(Grid::new(1, 1).unwrap());
    populate(&mut f, &vec![80, 80, 80]);
    assert_eq!(f.pops.len(), 1);
}

#[test]
fn random_map_is_sound() {
    let grid = Grid::new(32, 32).unwrap();
    let d = spawn_tilemap(grid);
    assert_eq!(d.grid, grid);
    let total = d.pops.len() + d.houses.len() + d.workplaces.len();
    assert!(total <= 1024);
    assert!(d.workplaces.len() < 1024);
    assert_eq!(d.next_id as usize, total);
    assert!(d.restaurants.is_empty());
    let mut ids: Vec<u32> = Vec::new();
    for pop in d.pops.iter() {
        assert!(grid.contains(pop.position));
        assert_eq!(*pop, Pop::new(pop.id, pop.position));
        ids.push(pop.id);
    }
    for house in d.houses.iter() {
        assert!(grid.contains(house.position));
        assert_eq!(house.capacity, 4);
        assert!(house.residents.is_empty());
        ids.push(house.id);
    }
    for workplace in d.workplaces.iter() {
        assert!(grid.contains(workplace.position));
        assert_eq!(workplace.capacity, 10);
        assert!(workplace.employees.is_empty());
        ids.push(workplace.id);
    }
    ids.sort();
    let expected: Vec<u32> = (0..total as u32).collect();
    assert_eq!(ids, expected);
    assert!(d.pops.windows(2).all(|w| w[0].id < w[1].id));
    assert!(d.pops.windows(2).all(|w| {
        cell_number(w[0].position.x, w[0].position.y, 32)
            < cell_number(w[1].position.x, w[1].position.y, 32)
    }));
}

#[test]
fn random_maps_are_not_all_empty() {
    let grid = Grid::new(32, 32).unwrap();
    let mut total = 0;
    for _ in 0..8 {
        let d = spawn_tilemap(grid);
        total += d.pops.len() + d.houses.len() + d.workplaces.len();
    }
    assert!(total > 0);
}
