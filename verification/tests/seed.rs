use zombie_life::seed::{initial_state, initial_vector, random_initial_state};
use zombie_life::{GridVec, Status, ZombieState};

#[test]
fn initial_vector_lays_out_terrain_and_rolls() {
    assert_eq!(initial_vector(3, 4, 10, -2, 6, 255), vec![3, 4, 10, -2, 2, 105, 0, 0, 0]);
    assert_eq!(initial_vector(3, 4, 10, -2, 5, 19), vec![3, 4, 10, -2, 1, 10, 0, 0, 0]);
    assert_eq!(initial_vector(3, 4, 10, -2, 4, 19), vec![3, 4, 10, -2, 0, 0, 0, 0, 0]);
    assert_eq!(initial_vector(3, 4, 10, -2, 7, 19), vec![3, 4, 10, -2, 0, 0, 0, 0, 0]);
}

#[test]
fn initial_state_is_read_from_its_vector() {
    for status_roll in 0..=255u8 {
        for population_roll in [0u8, 1, 9, 10, 49, 50, 99, 100, 101, 199, 200, 255] {
            let raw = initial_vector(-8, 9, 70, 21, status_roll, population_roll);
            assert_eq!(
                initial_state(-8, 9, 70, 21, status_roll, population_roll),
                ZombieState::from(raw)
            );
        }
    }
}

#[test]
fn a_quarter_each_for_zombies_and_humans() {
    for status_roll in 0..=255u8 {
        let expected = match status_roll % 4 {
            1 => Status::Zombie,
            2 => Status::Human,
            _ => Status::Empty,
        };
        assert_eq!(initial_state(0, 0, 0, 0, status_roll, 0).status, expected);
    }
}

#[test]
fn humans_start_in_large_groups_and_zombies_in_small_ones() {
    let mut fewest_humans = i32::MAX;
    let mut most_humans = i32::MIN;
    let mut fewest_zombies = i32::MAX;
    let mut most_zombies = i32::MIN;
    for population_roll in 0..=255u8 {
        let humans = initial_state(0, 0, 0, 0, 2, population_roll);
        assert_eq!(humans.population, (population_roll % 100) as i32 + 50);
        fewest_humans = fewest_humans.min(humans.population);
        most_humans = most_humans.max(humans.population);
        let zombies = initial_state(0, 0, 0, 0, 1, population_roll);
        assert_eq!(zombies.population, (population_roll % 10) as i32 + 1);
        fewest_zombies = fewest_zombies.min(zombies.population);
        most_zombies = most_zombies.max(zombies.population);
        assert_eq!(initial_state(0, 0, 0, 0, 0, population_roll).population, 0);
    }
    assert_eq!((fewest_humans, most_humans), (50, 149));
    assert_eq!((fewest_zombies, most_zombies), (1, 10));
}

#[test]
fn cells_start_without_scent_and_headed_north() {
    for status_roll in 0..4u8 {
        let state = initial_state(5, 6, 7, 8, status_roll, 33);
        assert_eq!(state.xy, GridVec::new(5, 6));
        assert_eq!(state.altitude, 7);
        assert_eq!(state.temperature, 8);
        assert_eq!(state.direction, 0);
        assert_eq!(state.smell_human, 0);
        assert_eq!(state.smell_zombie, 0);
    }
}

#[test]
fn random_cells_are_within_the_ranges_of_their_faction() {
    let mut seen = [false; 3];
    for i in 0..2000 {
        let state = random_initial_state(i, -i, 2 * i, 3 * i);
        assert_eq!(state.xy, GridVec::new(i, -i));
        assert_eq!(state.altitude, 2 * i);
        assert_eq!(state.temperature, 3 * i);
        assert_eq!(state.direction, 0);
        assert_eq!(state.smell_human, 0);
        assert_eq!(state.smell_zombie, 0);
        match state.status {
            Status::Empty => {
                seen[0] = true;
                assert_eq!(state.population, 0);
            }
            Status::Zombie => {
                seen[1] = true;
                assert!((1..=10).contains(&state.population));
            }
            Status::Human => {
                seen[2] = true;
                assert!((50..=150).contains(&state.population));
            }
        }
    }
    assert_eq!(seen, [true; 3]);
}
