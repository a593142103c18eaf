use creature_sim::creatures::Creature;
use creature_sim::gene::{Gene, Genome};
use creature_sim::motors::Motor;
use creature_sim::position::Position;
use creature_sim::simulation::{resolve, tick};
use creature_sim::world::World;
use rand::rngs::StdRng;
use rand::SeedableRng;

fn cell(x: usize, y: usize) -> Position {
    Position { x, y }
}

/// A creature that always picks `Up`: without synapses every activation is 0.
fn climber(id: &str) -> Creature {
    Creature::with_genome(id.to_string(), Genome { genome: vec![] }, 1).unwrap()
}

/// A creature that picks `motor` while its sensor `sensor` reads 1, and `Up`
/// otherwise.
fn mover(id: &str, sensor: u8, motor: u8) -> Creature {
    let genes = vec![
        Gene { source: 0, source_id: sensor, sink: 0, sink_id: 0, weight: 1000 },
        Gene { source: 1, source_id: 0, sink: 1, sink_id: motor, weight: 1000 },
    ];
    Creature::with_genome(id.to_string(), Genome { genome: genes }, 1).unwrap()
}

fn census(world: &World) -> Vec<(String, usize, usize)> {
    let mut found = vec![];
    for (x, column) in world.locs.iter().enumerate() {
        for (y, slot) in column.iter().enumerate() {
            if let Some(creature) = slot {
                found.push((creature.id.clone(), x, y));
            }
        }
    }
    found.sort();
    found
}

fn who(world: &World, x: usize, y: usize) -> Option<&str> {
    world.locs[x][y].as_ref().map(|creature| creature.id.as_str())
}

#[test]
fn a_tick_of_a_blank_world_is_blank() {
    let world = World::blank(4, 3);
    let next = tick(&world);
    assert_eq!(next, World::blank(4, 3));
    assert_eq!(tick(&World::blank(0, 0)), World::blank(0, 0));
}

#[test]
fn a_lone_creature_climbs_to_the_top_and_stays() {
    let mut world = World::blank(2, 3);
    world.put(cell(1, 0), climber("a"));
    let world = tick(&world);
    assert_eq!(census(&world), vec![("a".to_string(), 1, 1)]);
    let world = tick(&world);
    assert_eq!(census(&world), vec![("a".to_string(), 1, 2)]);
    let world = tick(&world);
    assert_eq!(census(&world), vec![("a".to_string(), 1, 2)]);
}

#[test]
fn creatures_move_in_each_of_the_four_directions() {
    // the mover sits at (1, 1) and senses the neighbour above it
    for (motor, expected) in [(0u8, (1, 1)), (1, (1, 0)), (2, (0, 1)), (3, (2, 1))] {
        let mut world = World::blank(3, 3);
        world.put(cell(1, 1), mover("m", 0, motor));
        world.put(cell(1, 2), climber("n"));
        assert_eq!(
            world.occupant(cell(1, 1)).unwrap().calculate_activity(&world, cell(1, 1)),
            Motor::new(motor).unwrap()
        );
        let next = tick(&world);
        assert_eq!(
            census(&next),
            vec![("m".to_string(), expected.0, expected.1), ("n".to_string(), 1, 2)]
        );
    }
}

#[test]
fn creatures_stay_inside_the_grid() {
    // each mover senses the climber beside it and heads for the nearest edge
    let mut world = World::blank(2, 1);
    world.put(cell(0, 0), mover("left", 3, 2));
    world.put(cell(1, 0), mover("right", 2, 3));
    let next = tick(&world);
    assert_eq!(census(&next), vec![("left".to_string(), 0, 0), ("right".to_string(), 1, 0)]);
    let mut world = World::blank(1, 2);
    world.put(cell(0, 0), mover("down", 0, 1));
    world.put(cell(0, 1), climber("up"));
    let next = tick(&world);
    assert_eq!(census(&next), vec![("down".to_string(), 0, 0), ("up".to_string(), 0, 1)]);
}

#[test]
fn the_earlier_creature_in_scan_order_wins_a_contested_cell() {
    // a at (0, 0) picks Up and b at (0, 2) picks Down: both want (0, 1)
    let mut world = World::blank(2, 3);
    world.put(cell(0, 0), climber("a"));
    world.put(cell(0, 2), mover("b", 3, 1));
    world.put(cell(1, 2), climber("c"));
    assert_eq!(world.occupant(cell(0, 0)).unwrap().calculate_activity(&world, cell(0, 0)), Motor::Up);
    assert_eq!(world.occupant(cell(0, 2)).unwrap().calculate_activity(&world, cell(0, 2)), Motor::Down);
    let next = tick(&world);
    assert_eq!(who(&next, 0, 1), Some("a"));
    assert_eq!(who(&next, 0, 2), Some("b"));
    assert_eq!(who(&next, 0, 0), None);
    assert_eq!(who(&next, 1, 2), Some("c"));
    assert_eq!(next.population(), 3);
}

#[test]
fn columns_are_scanned_from_left_to_right() {
    // a at (0, 1) picks Right and b at (2, 1) picks Left: both want (1, 1),
    // and a is in the earlier column
    let mut world = World::blank(3, 2);
    world.put(cell(0, 1), mover("a", 1, 3));
    world.put(cell(0, 0), mover("below-a", 0, 0));
    world.put(cell(2, 1), mover("b", 1, 2));
    world.put(cell(2, 0), mover("below-b", 0, 0));
    assert_eq!(world.occupant(cell(0, 1)).unwrap().calculate_activity(&world, cell(0, 1)), Motor::Right);
    assert_eq!(world.occupant(cell(2, 1)).unwrap().calculate_activity(&world, cell(2, 1)), Motor::Left);
    let next = tick(&world);
    assert_eq!(who(&next, 1, 1), Some("a"));
    assert_eq!(who(&next, 2, 1), Some("b"));
    assert_eq!(who(&next, 0, 1), None);
    assert_eq!(who(&next, 0, 0), Some("below-a"));
    assert_eq!(who(&next, 2, 0), Some("below-b"));
}

#[test]
fn a_cell_that_was_occupied_cannot_be_entered() {
    // b leaves (0, 1) in this tick, and still a may not enter it
    let mut world = World::blank(1, 3);
    world.put(cell(0, 0), climber("a"));
    world.put(cell(0, 1), climber("b"));
    let next = tick(&world);
    assert_eq!(census(&next), vec![("a".to_string(), 0, 0), ("b".to_string(), 0, 2)]);
    let after = tick(&next);
    assert_eq!(census(&after), vec![("a".to_string(), 0, 1), ("b".to_string(), 0, 2)]);
}

#[test]
fn resolve_applies_the_three_conditions() {
    let mut from = World::blank(3, 3);
    from.put(cell(1, 1), climber("a"));
    from.put(cell(1, 2), climber("b"));
    let mut to = World::blank(3, 3);
    // the target was occupied in the old world
    assert_eq!(resolve(&from, &to, cell(1, 1), Motor::Up), cell(1, 1));
    // the target is free in both
    assert_eq!(resolve(&from, &to, cell(1, 1), Motor::Down), cell(1, 0));
    assert_eq!(resolve(&from, &to, cell(1, 1), Motor::Left), cell(0, 1));
    assert_eq!(resolve(&from, &to, cell(1, 1), Motor::Right), cell(2, 1));
    // the target has been claimed in the new world
    to.put(cell(2, 1), climber("c"));
    assert_eq!(resolve(&from, &to, cell(1, 1), Motor::Right), cell(1, 1));
    // the target lies outside the grid
    assert_eq!(resolve(&from, &to, cell(1, 2), Motor::Up), cell(1, 2));
    assert_eq!(resolve(&from, &to, cell(0, 0), Motor::Down), cell(0, 0));
    assert_eq!(resolve(&from, &to, cell(0, 0), Motor::Left), cell(0, 0));
    assert_eq!(resolve(&from, &to, cell(2, 2), Motor::Right), cell(2, 2));
}

#[test]
fn resolve_gives_a_contested_cell_to_the_first_claim() {
    let mut from = World::blank(3, 1);
    from.put(cell(0, 0), climber("first"));
    from.put(cell(2, 0), climber("second"));
    let mut to = World::blank(3, 1);
    let first = resolve(&from, &to, cell(0, 0), Motor::Right);
    assert_eq!(first, cell(1, 0));
    to.put(first, climber("first"));
    let second = resolve(&from, &to, cell(2, 0), Motor::Left);
    assert_eq!(second, cell(2, 0));
    to.put(second, climber("second"));
    assert_eq!(census(&to), vec![("first".to_string(), 1, 0), ("second".to_string(), 2, 0)]);
}

#[test]
fn a_tick_does_not_change_the_old_world() {
    let mut rng = StdRng::seed_from_u64(31);
    let world = World::new(&mut rng, 8, 8, 30, 20, 5).unwrap();
    let before_cells = census(&world);
    let before_text = world.to_text();
    let before_locs: Vec<Vec<Option<Creature>>> = world.locs.clone();
    let next = tick(&world);
    assert_eq!(census(&world), before_cells);
    assert_eq!(world.to_text(), before_text);
    assert_eq!(world.locs, before_locs);
    assert_eq!(world.x_len, 8);
    assert_eq!(world.y_len, 8);
    // and the same old world gives the same next world again
    assert_eq!(tick(&world), next);
}

#[test]
fn ticks_keep_every_creature_and_move_it_one_cell_at_most() {
    for seed in 0..5 {
        let mut rng = StdRng::seed_from_u64(seed);
        let mut world = World::new(&mut rng, 9, 7, 40, 20, 5).unwrap();
        for _ in 0..20 {
            let next = tick(&world);
            assert!(next.is_well_formed());
            assert_eq!(next.x_len, 9);
            assert_eq!(next.y_len, 7);
            assert_eq!(next.population(), 40);
            let before = census(&world);
            let after = census(&next);
            assert_eq!(before.len(), after.len());
            for ((id, x, y), (next_id, next_x, next_y)) in before.iter().zip(after.iter()) {
                assert_eq!(id, next_id);
                let steps = x.abs_diff(*next_x) + y.abs_diff(*next_y);
                assert!(steps <= 1);
                if steps == 1 {
                    assert!(world.locs[*next_x][*next_y].is_none());
                }
                let creature = next.locs[*next_x][*next_y].as_ref().unwrap();
                assert_eq!(Some(creature), world.locs[*x][*y].as_ref());
            }
            world = next;
        }
    }
}

#[test]
fn a_seeded_run_can_be_repeated() {
    let mut first = StdRng::seed_from_u64(2024);
    let mut second = StdRng::seed_from_u64(2024);
    let mut a = World::new(&mut first, 16, 16, 60, 20, 5).unwrap();
    let mut b = World::new(&mut second, 16, 16, 60, 20, 5).unwrap();
    for _ in 0..20 {
        a = tick(&a);
        b = tick(&b);
        assert_eq!(a, b);
    }
    assert_eq!(a.to_text(), b.to_text());
}
