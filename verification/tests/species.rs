use ant_epidemic::species::{AntSpecies, SpeciesError};
use ant_epidemic::state::{MAX_POPULATION, MAX_RATE, UNIT};

fn population(s: i64, i: i64, d: i64, beta: u32, hp_rate: u32) -> AntSpecies {
    AntSpecies::new(String::from("Polyrhachis mesota"), s, i, d, beta, hp_rate).unwrap()
}

fn with_lifetimes(s: i64, hp_rate: u32, lifetimes: &[u32]) -> AntSpecies {
    let mut species = population(s, UNIT * lifetimes.len() as i64, 0, 423, hp_rate);
    for lifetime in lifetimes {
        assert!(species.assign_lifetime(*lifetime));
    }
    species
}

fn total(species: &AntSpecies) -> i64 {
    species.susceptible() + species.infected() + species.dead() + species.hyperparasitized()
}

#[test]
fn new_keeps_the_given_values() {
    let species = population(1_000_000, 10_000, 3_000, 423, 100);
    assert_eq!(species.name(), "Polyrhachis mesota");
    assert_eq!(species.susceptible(), 1_000_000);
    assert_eq!(species.infected(), 10_000);
    assert_eq!(species.dead(), 3_000);
    assert_eq!(species.hyperparasitized(), 0);
    assert_eq!(species.infection_rate(), 423);
    assert_eq!(species.hyperparasitism_rate(), 100);
    assert!(species.infected_lifetime().is_empty());
}

#[test]
fn new_accepts_a_negative_susceptible_count() {
    let species = population(-300, 5_000, 0, 423, 100);
    assert_eq!(species.susceptible(), -300);
    assert!(species.is_anomalous());
}

#[test]
fn new_accepts_the_bounds() {
    assert!(AntSpecies::new(String::new(), MAX_POPULATION, 0, 0, MAX_RATE, 1000).is_ok());
    assert!(AntSpecies::new(String::new(), -MAX_POPULATION, 0, 0, 0, 0).is_ok());
    assert!(AntSpecies::new(String::new(), 0, MAX_POPULATION - 1, 1, 0, 0).is_ok());
}

#[test]
fn new_refuses_a_negative_infected_count() {
    let made = AntSpecies::new(String::new(), 1_000, -1, 0, 423, 100);
    assert_eq!(made.err(), Some(SpeciesError::NegativeCount));
}

#[test]
fn new_refuses_a_negative_dead_count() {
    let made = AntSpecies::new(String::new(), 1_000, 0, -1, 423, 100);
    assert_eq!(made.err(), Some(SpeciesError::NegativeCount));
}

#[test]
fn new_refuses_too_large_a_population() {
    let made = AntSpecies::new(String::new(), MAX_POPULATION, 1, 0, 423, 100);
    assert_eq!(made.err(), Some(SpeciesError::PopulationTooLarge));
    let made = AntSpecies::new(String::new(), i64::MIN, 0, 0, 423, 100);
    assert_eq!(made.err(), Some(SpeciesError::PopulationTooLarge));
    let made = AntSpecies::new(String::new(), 0, i64::MAX, i64::MAX, 423, 100);
    assert_eq!(made.err(), Some(SpeciesError::PopulationTooLarge));
}

#[test]
fn new_refuses_too_large_an_infection_rate() {
    let made = AntSpecies::new(String::new(), 1_000, 0, 0, MAX_RATE + 1, 100);
    assert_eq!(made.err(), Some(SpeciesError::InfectionRateTooLarge));
}

#[test]
fn new_refuses_a_hyperparasitism_rate_above_one() {
    let made = AntSpecies::new(String::new(), 1_000, 0, 0, 423, 1001);
    assert_eq!(made.err(), Some(SpeciesError::HyperparasitismRateTooLarge));
}

#[test]
fn new_names_the_first_reason() {
    let made = AntSpecies::new(String::new(), i64::MAX, -1, 0, MAX_RATE + 1, 1001);
    assert_eq!(made.err(), Some(SpeciesError::NegativeCount));
    let made = AntSpecies::new(String::new(), i64::MAX, 0, 0, MAX_RATE + 1, 1001);
    assert_eq!(made.err(), Some(SpeciesError::PopulationTooLarge));
    let made = AntSpecies::new(String::new(), 0, 0, 0, MAX_RATE + 1, 1001);
    assert_eq!(made.err(), Some(SpeciesError::InfectionRateTooLarge));
}

#[test]
fn assign_lifetime_takes_whole_untimed_individuals_only() {
    let mut species = population(1_000_000, 2_500, 0, 423, 100);
    assert!(species.assign_lifetime(6));
    assert!(species.assign_lifetime(0));
    assert!(!species.assign_lifetime(5));
    assert_eq!(species.infected_lifetime(), &vec![6, 0]);
    assert_eq!(species.infected(), 2_500);
}

#[test]
fn force_of_infection_is_the_mass_action_term() {
    let species = population(1_000_000, 10_000, 0, 423, 100);
    assert_eq!(species.force_of_infection(5_000_000, 1000), 846);
    assert_eq!(species.force_of_infection(5_000_000, 500), 423);
    assert_eq!(species.force_of_infection(5_000_000, 0), 0);
    let species = population(1_000_000, 10_000, 0, 94, 100);
    assert_eq!(species.force_of_infection(5_000_000, 1000), 188);
}

#[test]
fn force_of_infection_rounds_towards_zero() {
    let species = population(1_000_000, 10_000, 0, 423, 100);
    assert_eq!(species.force_of_infection(5_000_001, 1000), 845);
    let species = population(-300_000, 5_000_000, 0, 423, 100);
    assert_eq!(species.force_of_infection(5_000_000, 1000), -126_900);
    assert_eq!(species.force_of_infection(5_000_001, 1000), -126_899);
    let species = population(-300, 5_000, 0, 423, 100);
    assert_eq!(species.force_of_infection(5_000_000, 1000), 0);
}

#[test]
fn force_of_infection_at_the_bounds() {
    let species = population(MAX_POPULATION / 2, MAX_POPULATION / 2, 0, MAX_RATE, 100);
    let force = species.force_of_infection(1, 1_000_000);
    assert_eq!(force, 250_000_000_000_000_000_000_000_000_000i128);
}

#[test]
fn admitted_is_capped_by_the_susceptible_count() {
    let species = population(3_000, 0, 0, 423, 100);
    assert_eq!(species.admitted(2_500), 2_500);
    assert_eq!(species.admitted(3_000), 3_000);
    assert_eq!(species.admitted(9_999), 3_000);
    assert_eq!(species.arrivals(2_500), 2);
    assert_eq!(species.arrivals(999), 0);
    assert_eq!(species.arrivals(9_999), 3);
    let none = population(0, 5_000, 0, 423, 100);
    assert_eq!(none.admitted(2_500), 0);
    assert_eq!(none.arrivals(2_500), 0);
}

#[test]
fn admits_refuses_what_would_grow_the_susceptible_count() {
    let species = population(3_000, 0, 0, 423, 100);
    assert!(species.admits(0));
    assert!(species.admits(i64::MAX));
    assert!(!species.admits(-1));
    let negative = population(-300, 5_000, 0, 423, 100);
    assert!(negative.admits(-300));
    assert!(negative.admits(-1));
    assert!(!negative.admits(-301));
}

#[test]
fn infect_with_moves_the_admitted_amount() {
    let mut species = population(3_000, 1_000, 0, 423, 100);
    species.infect_with(2_500, &vec![4, 7]);
    assert_eq!(species.susceptible(), 500);
    assert_eq!(species.infected(), 3_500);
    assert_eq!(species.dead(), 0);
    assert_eq!(species.hyperparasitized(), 0);
    assert_eq!(species.infected_lifetime(), &vec![4, 7]);
}

#[test]
fn infect_with_appends_to_the_lifetimes_that_are_there() {
    let mut species = with_lifetimes(5_000, 100, &[2, 1]);
    species.infect_with(1_000, &vec![5]);
    assert_eq!(species.infected_lifetime(), &vec![2, 1, 5]);
    assert_eq!(species.susceptible(), 4_000);
    assert_eq!(species.infected(), 3_000);
}

#[test]
fn infect_with_a_fraction_adds_no_lifetime() {
    let mut species = population(1_000_000, 10_000, 0, 423, 100);
    species.infect_with(846, &vec![]);
    assert_eq!(species.susceptible(), 999_154);
    assert_eq!(species.infected(), 10_846);
    assert!(species.infected_lifetime().is_empty());
}

#[test]
fn infect_never_takes_more_than_there_are() {
    let mut species = population(3_000, 1_000, 0, 423, 100);
    species.infect(1_000_000);
    assert_eq!(species.susceptible(), 0);
    assert_eq!(species.infected(), 4_000);
    assert_eq!(species.infected_lifetime().len(), 3);
}

#[test]
fn infect_keeps_the_susceptible_count_from_going_negative() {
    for amount in [0i64, 1, 999, 1_000, 2_999, 3_000, 3_001, 50_000] {
        let mut species = population(3_000, 1_000, 0, 423, 100);
        species.infect(amount);
        assert!(species.susceptible() >= 0);
        assert_eq!(species.susceptible(), 3_000 - amount.min(3_000));
        assert_eq!(total(&species), 4_000);
    }
}

#[test]
fn infect_without_susceptibles_changes_nothing() {
    let mut species = with_lifetimes(0, 100, &[3, 1]);
    species.infect(5_000);
    assert_eq!(species.susceptible(), 0);
    assert_eq!(species.infected(), 2_000);
    assert_eq!(species.dead(), 0);
    assert_eq!(species.hyperparasitized(), 0);
    assert_eq!(species.infected_lifetime(), &vec![3, 1]);
}

#[test]
fn infect_draws_lifetimes_from_four_to_seven() {
    let mut species = population(500_000_000, 0, 0, 423, 100);
    species.infect(2_000_500);
    assert_eq!(species.infected_lifetime().len(), 2_000);
    assert!(species.infected_lifetime().iter().all(|lifetime| (4..8).contains(lifetime)));
    for wanted in 4u32..8 {
        assert!(species.infected_lifetime().contains(&wanted));
    }
    assert_eq!(species.infected(), 2_000_500);
    assert_eq!(species.susceptible(), 500_000_000 - 2_000_500);
}

#[test]
fn infect_absorbs_a_negative_susceptible_count() {
    let mut species = population(-300, 5_000, 0, 423, 100);
    species.infect(0);
    assert_eq!(species.susceptible(), 0);
    assert_eq!(species.infected(), 4_700);
    assert!(species.infected_lifetime().is_empty());
}

#[test]
fn expiring_counts_the_lifetimes_of_one_day_or_less() {
    let species = with_lifetimes(1_000, 100, &[1, 3, 0, 2, 1, 7]);
    assert_eq!(species.expiring(), 3);
    assert_eq!(population(1_000, 5_000, 0, 423, 100).expiring(), 0);
}

#[test]
fn update_infection_with_settles_each_ending_infection_by_its_draw() {
    let mut species = with_lifetimes(1_000, 100, &[1, 3, 0, 2, 1, 7]);
    species.update_infection_with(&vec![99, 100, 0]);
    assert_eq!(species.infected_lifetime(), &vec![2, 1, 6]);
    assert_eq!(species.infected(), 3_000);
    assert_eq!(species.hyperparasitized(), 2_000);
    assert_eq!(species.dead(), 1_000);
    assert_eq!(species.susceptible(), 1_000);
}

#[test]
fn update_infection_with_no_ending_infection_only_ages() {
    let mut species = with_lifetimes(1_000, 100, &[4, 2, 7]);
    species.update_infection_with(&vec![]);
    assert_eq!(species.infected_lifetime(), &vec![3, 1, 6]);
    assert_eq!(species.infected(), 3_000);
    assert_eq!(species.dead(), 0);
    assert_eq!(species.hyperparasitized(), 0);
}

#[test]
fn update_infection_may_empty_the_lifetimes() {
    let mut species = with_lifetimes(1_000, 0, &[1, 1, 0]);
    species.update_infection();
    assert!(species.infected_lifetime().is_empty());
    assert_eq!(species.infected(), 0);
    assert_eq!(species.dead(), 3_000);
    assert_eq!(species.hyperparasitized(), 0);
}

#[test]
fn update_infection_with_a_rate_of_one_turns_everyone() {
    let mut species = with_lifetimes(1_000, 1000, &[1, 5, 1]);
    species.update_infection();
    assert_eq!(species.infected_lifetime(), &vec![4]);
    assert_eq!(species.infected(), 1_000);
    assert_eq!(species.dead(), 0);
    assert_eq!(species.hyperparasitized(), 2_000);
}

#[test]
fn update_infection_leaves_no_lifetime_at_zero() {
    let mut species = with_lifetimes(1_000, 100, &[0, 1, 2, 3, 4, 5, 6, 7, 1, 0]);
    let mut rounds = 0;
    while !species.infected_lifetime().is_empty() {
        let before = species.infected_lifetime().len();
        let ending = species.expiring();
        species.update_infection();
        assert!(species.infected_lifetime().iter().all(|lifetime| *lifetime >= 1));
        assert_eq!(species.infected_lifetime().len(), before - ending);
        rounds += 1;
    }
    assert_eq!(rounds, 7);
    assert_eq!(species.infected(), 0);
    assert_eq!(species.dead() + species.hyperparasitized(), 10_000);
}

#[test]
fn untimed_infections_never_end() {
    let mut species = population(0, 10_000, 0, 423, 100);
    for _ in 0..20 {
        species.update_infection();
    }
    assert_eq!(species.infected(), 10_000);
    assert_eq!(species.dead(), 0);
    assert_eq!(species.hyperparasitized(), 0);
}

#[test]
fn one_step_of_the_first_species() {
    let mut species = population(1_000_000, 10_000, 0, 423, 100);
    species.sir_step(5_000_000, 1000);
    assert_eq!(species.susceptible(), 999_154);
    assert_eq!(species.infected(), 10_846);
    assert_eq!(species.dead(), 0);
    assert_eq!(species.hyperparasitized(), 0);
    assert!(species.infected_lifetime().is_empty());
}

#[test]
fn arrivals_do_not_end_in_the_step_that_brings_them() {
    let mut species = population(900_000_000, 100_000_000, 0, 1000, 100);
    species.sir_step(1_000_000_000, 1000);
    assert_eq!(species.susceptible(), 810_000_000);
    assert_eq!(species.infected(), 190_000_000);
    assert_eq!(species.infected_lifetime().len(), 90_000);
    assert!(species.infected_lifetime().iter().all(|lifetime| (3..7).contains(lifetime)));
    assert_eq!(species.dead(), 0);
    assert_eq!(species.hyperparasitized(), 0);
}

#[test]
fn sir_step_with_is_determined_by_what_it_is_given() {
    let mut species = population(10_000_000, 3_000, 0, 1000, 500);
    for lifetime in [1, 2, 1] {
        assert!(species.assign_lifetime(lifetime));
    }
    assert_eq!(species.force_of_infection(10_000_000, 1000), 3_000);
    species.sir_step_with(10_000_000, 1000, &vec![4, 4, 7], &vec![499, 500]);
    assert_eq!(species.susceptible(), 9_997_000);
    assert_eq!(species.infected(), 4_000);
    assert_eq!(species.infected_lifetime(), &vec![1, 3, 3, 6]);
    assert_eq!(species.hyperparasitized(), 1_000);
    assert_eq!(species.dead(), 1_000);
}

#[test]
fn steps_conserve_the_total_and_only_add_to_the_settled() {
    let mut species = population(1_000_000, 10_000, 0, 1000, 300);
    for _ in 0..10 {
        assert!(species.assign_lifetime(1));
    }
    let before = total(&species);
    let mut dead = species.dead();
    let mut hyperparasitized = species.hyperparasitized();
    for _ in 0..200 {
        species.sir_step(1_000_000, 1000);
        assert_eq!(total(&species), before);
        assert!(species.dead() >= dead);
        assert!(species.hyperparasitized() >= hyperparasitized);
        assert!(species.susceptible() >= 0);
        dead = species.dead();
        hyperparasitized = species.hyperparasitized();
    }
    assert!(dead + hyperparasitized >= 10_000);
}

#[test]
fn settle_all_of_a_negative_susceptible_count() {
    let mut species = with_lifetimes(-300, 100, &[4, 5, 6, 7, 4]);
    assert_eq!(species.infected(), 5_000);
    assert!(species.is_anomalous());
    species.settle_all();
    assert_eq!(species.susceptible(), -300);
    assert_eq!(species.infected(), 0);
    assert_eq!(species.dead() + species.hyperparasitized(), 5_000);
    assert!(species.dead() >= 0 && species.hyperparasitized() >= 0);
    assert!(species.infected_lifetime().is_empty());
}

#[test]
fn settle_all_with_goes_by_the_draws() {
    let mut species = with_lifetimes(-300, 100, &[4, 5, 6, 7, 4]);
    species.settle_all_with(&vec![0, 99, 100, 999, 50]);
    assert_eq!(species.susceptible(), -300);
    assert_eq!(species.infected(), 0);
    assert_eq!(species.hyperparasitized(), 3_000);
    assert_eq!(species.dead(), 2_000);
    assert!(species.infected_lifetime().is_empty());
}

#[test]
fn settle_all_drops_the_untimed_share() {
    let mut species = population(-300, 5_500, 0, 423, 100);
    assert!(species.assign_lifetime(4));
    species.settle_all_with(&vec![500]);
    assert_eq!(species.infected(), 0);
    assert_eq!(species.dead(), 1_000);
    assert_eq!(species.hyperparasitized(), 0);
}

#[test]
fn epidemic_tick_settles_an_anomalous_population() {
    let mut species = with_lifetimes(-300, 0, &[4, 5, 6, 7, 4]);
    species.epidemic_tick(5_000_000);
    assert_eq!(species.susceptible(), -300);
    assert_eq!(species.infected(), 0);
    assert_eq!(species.dead(), 5_000);
    assert!(species.infected_lifetime().is_empty());
    assert!(!species.is_anomalous());
    species.epidemic_tick(5_000_000);
    assert_eq!(species.susceptible(), 0);
    assert_eq!(species.infected(), -300);
    assert_eq!(species.dead(), 5_000);
    species.epidemic_tick(5_000_000);
    assert_eq!(species.susceptible(), 0);
    assert_eq!(species.infected(), -300);
}

#[test]
fn epidemic_tick_steps_any_other_population_by_one_day() {
    let mut species = population(1_000_000, 10_000, 0, 423, 100);
    species.epidemic_tick(5_000_000);
    assert_eq!(species.susceptible(), 999_154);
    assert_eq!(species.infected(), 10_846);
}

#[test]
fn a_tenth_of_the_settled_become_hyperparasitized() {
    let count: i64 = 100_000;
    let mut species = population(0, UNIT * count, 0, 423, 100);
    for _ in 0..count {
        assert!(species.assign_lifetime(1));
    }
    species.update_infection();
    assert_eq!(species.infected(), 0);
    assert_eq!(species.dead() + species.hyperparasitized(), UNIT * count);
    let turned = species.hyperparasitized() / UNIT;
    assert!(turned >= 9_000 && turned <= 11_000);
}
