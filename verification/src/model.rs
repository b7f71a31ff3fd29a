//! The populations of one simulation and the clock that drives them.

use crate::species::AntSpecies;
use crate::state::{SpeciesState, MAX_RATE};
use vstd::prelude::*;

verus! {

/// The number of frames between two daily updates of the populations.
pub const FRAMES_PER_TICK: u64 = 30;

/// The number of frames between two advances of the day counter.
pub const FRAMES_PER_DAY: u64 = 450;

/// The susceptible count of every population at the start.
pub const SEED_SUSCEPTIBLE: i64 = 1_000_000;

/// The infected count of every population at the start.
pub const SEED_INFECTED: i64 = 10_000;

/// The hyperparasitism rate of every population.
pub const SEED_HYPERPARASITISM_RATE: u32 = 100;

/// The total population that the force of infection is divided by.
pub const SEED_TOTAL_POPULATION: i64 = 5_000_000;

/// The value of a simulation.
pub struct ModelState {
    pub species: Seq<SpeciesState>,
    pub total_population: int,
    pub day_counter: int,
}

impl ModelState {
    /// What holds of every simulation: the total population is positive
    /// and every population is valid.
    pub open spec fn valid(self) -> bool {
        &&& self.total_population > 0
        &&& forall|j: int| 0 <= j < self.species.len() ==> (#[trigger] self.species[j]).valid()
    }
}

/// Whether the populations take their daily update at this frame.
pub open spec fn is_tick_frame(elapsed_frames: u64) -> bool {
    elapsed_frames % FRAMES_PER_TICK == 0
}

/// Whether the day counter advances at this frame.
pub open spec fn is_day_frame(elapsed_frames: u64) -> bool {
    elapsed_frames % FRAMES_PER_DAY == 0
}

/// The population that a simulation starts with for the species `name`
/// with the infection rate `beta`.
pub open spec fn seed_state(name: Seq<char>, beta: int) -> SpeciesState {
    SpeciesState::initial(
        name,
        SEED_SUSCEPTIBLE as int,
        SEED_INFECTED as int,
        0,
        beta,
        SEED_HYPERPARASITISM_RATE as int,
    )
}

/// The populations that a simulation starts with.
pub open spec fn seed_species() -> Seq<SpeciesState> {
    seq![
        seed_state("Polyrhachis mesota"@, 423),
        seed_state("Polyrhachis wolfi"@, 146),
        seed_state("Polyrhachis vigilans"@, 139),
        seed_state("Polyrhachis debilis"@, 98),
        seed_state("Polyrhachis illaudata"@, 94),
    ]
}

/// The populations of one simulation, the total population that their
/// forces of infection are divided by, and a counter of days.
pub struct Model {
    species_vec: Vec<AntSpecies>,
    total_population: i64,
    day_counter: usize,
}

impl View for Model {
    type V = ModelState;

    closed spec fn view(&self) -> ModelState {
        ModelState {
            species: self.species_vec@.map_values(|species: AntSpecies| species@),
            total_population: self.total_population as int,
            day_counter: self.day_counter as int,
        }
    }
}

impl Model {
    /// Makes a simulation of the given populations on day zero, where the
    /// total population is positive.
    pub fn with_species(species_vec: Vec<AntSpecies>, total_population: i64) -> (made: Option<
        Model,
    >)
        requires
            forall|j: int| 0 <= j < species_vec@.len() ==> (#[trigger] species_vec@[j])@.valid(),
        ensures
            made is Some <==> total_population > 0,
            made is Some ==> made->Some_0@.species == species_vec@.map_values(
                |species: AntSpecies| species@,
            ),
            made is Some ==> made->Some_0@.total_population == total_population,
            made is Some ==> made->Some_0@.day_counter == 0,
            made is Some ==> made->Some_0@.valid(),
    {
        if total_population > 0 {
            Some(Model { species_vec, total_population, day_counter: 0 })
        } else {
            None
        }
    }

    /// The populations, in their order.
    pub fn species(&self) -> (species: &Vec<AntSpecies>)
        ensures
            species@.map_values(|species: AntSpecies| species@) == self@.species,
    {
        &self.species_vec
    }

    /// The total population that the forces of infection are divided by.
    pub fn total_population(&self) -> (total: i64)
        ensures
            total == self@.total_population,
    {
        self.total_population
    }

    /// The number of days counted so far.
    pub fn day_counter(&self) -> (days: usize)
        ensures
            days == self@.day_counter,
    {
        self.day_counter
    }
}

/// Makes the population that a simulation starts with for one species.
fn seed(name: &str, beta: u32) -> (species: AntSpecies)
    requires
        beta <= MAX_RATE,
    ensures
        species@ == seed_state(name@, beta as int),
        species@.valid(),
{
    let made = AntSpecies::new(
        name.to_owned(),
        SEED_SUSCEPTIBLE,
        SEED_INFECTED,
        0,
        beta,
        SEED_HYPERPARASITISM_RATE,
    );
    made.unwrap()
}

/// Makes the simulation at its start: five populations, each with a
/// thousand susceptible and ten infected individuals, in a total
/// population of five thousand, on day zero.
pub fn model() -> (model: Model)
    ensures
        model@.species == seed_species(),
        model@.total_population == SEED_TOTAL_POPULATION,
        model@.day_counter == 0,
        model@.valid(),
{
    let mut species_vec: Vec<AntSpecies> = Vec::new();
    species_vec.push(seed("Polyrhachis mesota", 423));
    species_vec.push(seed("Polyrhachis wolfi", 146));
    species_vec.push(seed("Polyrhachis vigilans", 139));
    species_vec.push(seed("Polyrhachis debilis", 98));
    species_vec.push(seed("Polyrhachis illaudata", 94));
    let model = Model { species_vec, total_population: SEED_TOTAL_POPULATION, day_counter: 0 };
    assert(model@.species =~= seed_species());
    model
}

/// Advances the simulation by one frame. At every `FRAMES_PER_TICK`-th
/// frame each population takes its daily update; at every other frame the
/// populations stay as they are. At every `FRAMES_PER_DAY`-th frame the
/// day counter goes up by one.
pub fn update(model: &mut Model, elapsed_frames: u64)
    requires
        old(model)@.valid(),
        is_day_frame(elapsed_frames) ==> old(model)@.day_counter < usize::MAX,
    ensures
        final(model)@.valid(),
        final(model)@.total_population == old(model)@.total_population,
        is_day_frame(elapsed_frames) ==> final(model)@.day_counter == old(model)@.day_counter + 1,
        !is_day_frame(elapsed_frames) ==> final(model)@.day_counter == old(model)@.day_counter,
        final(model)@.species.len() == old(model)@.species.len(),
        is_tick_frame(elapsed_frames) ==> forall|j: int|
            0 <= j < old(model)@.species.len() ==> (#[trigger] old(model)@.species[j]).ticks_to(
                old(model)@.total_population,
                final(model)@.species[j],
            ),
        !is_tick_frame(elapsed_frames) ==> final(model)@.species == old(model)@.species,
{
    if elapsed_frames % FRAMES_PER_TICK == 0 {
        let count: usize = model.species_vec.len();
        let mut at: usize = 0;
        assert forall|j: int| 0 <= j < count implies (#[trigger] model.species_vec@[j])@.valid() by {
            assert(model@.species[j] == model.species_vec@[j]@);
        }
        while at < count
            invariant
                at <= count,
                model.species_vec@.len() == count,
                old(model).species_vec@.len() == count,
                model.total_population == old(model).total_population,
                model.day_counter == old(model).day_counter,
                model.total_population > 0,
                forall|j: int| 0 <= j < count ==> (#[trigger] model.species_vec@[j])@.valid(),
                forall|j: int|
                    0 <= j < at ==> (#[trigger] old(model).species_vec@[j])@.ticks_to(
                        model.total_population as int,
                        model.species_vec@[j]@,
                    ),
                forall|j: int|
                    at <= j < count ==> model.species_vec@[j] == old(model).species_vec@[j],
            decreases count - at,
        {
            model.species_vec[at].epidemic_tick(model.total_population);
            at += 1;
        }
    }
    if elapsed_frames % FRAMES_PER_DAY == 0 {
        model.day_counter = model.day_counter + 1;
    }
    assert(!is_tick_frame(elapsed_frames) ==> model@.species =~= old(model)@.species);
}

} // verus!
