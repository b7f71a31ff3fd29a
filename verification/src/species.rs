//! One population and the operations that change it.

use crate::laws::{
    lemma_infect_without_susceptibles, lemma_settle_all_accounts, lemma_step_conserves_total,
    lemma_step_is_monotonic,
};
use crate::random::draw_uniform;
use crate::state::{
    aged, below, ending, fresh_lifetimes, lemma_aged, lemma_aged_push, lemma_below_bounds,
    lemma_below_push, lemma_fresh_outlast, lemma_regular_force, SpeciesState, END_LIFETIME,
    FULL_RATE, MAX_POPULATION, MAX_RATE, MAX_STEP, MIN_LIFETIME, ONE_DAY, UNIT,
};
use vstd::prelude::*;

verus! {

/// Why a population cannot be made from the given values.
#[derive(Clone, Copy, Debug, PartialEq, Eq, Structural)]
pub enum SpeciesError {
    /// The infected or the dead count is negative.
    NegativeCount,
    /// The counts together exceed `MAX_POPULATION`.
    PopulationTooLarge,
    /// The infection rate exceeds `MAX_RATE`.
    InfectionRateTooLarge,
    /// The hyperparasitism rate exceeds one, that is, `UNIT`.
    HyperparasitismRateTooLarge,
}

/// The first reason, if any, for which the values are refused.
pub open spec fn refusal(s: int, i: int, d: int, beta: int, hp_rate: int) -> Option<SpeciesError> {
    if i < 0 || d < 0 {
        Some(SpeciesError::NegativeCount)
    } else if vstd::math::abs(s) + i + d > MAX_POPULATION {
        Some(SpeciesError::PopulationTooLarge)
    } else if beta > MAX_RATE {
        Some(SpeciesError::InfectionRateTooLarge)
    } else if hp_rate > UNIT {
        Some(SpeciesError::HyperparasitismRateTooLarge)
    } else {
        None
    }
}

/// One population of ants.
#[derive(Clone, Debug)]
pub struct AntSpecies {
    name: String,
    susceptible: i64,
    infected: i64,
    dead: i64,
    infection_rate: u32,
    hyperparasitism_rate: u32,
    infected_lifetime: Vec<u32>,
    hyperparasitized: i64,
}

impl View for AntSpecies {
    type V = SpeciesState;

    closed spec fn view(&self) -> SpeciesState {
        SpeciesState {
            name: self.name@,
            susceptible: self.susceptible as int,
            infected: self.infected as int,
            dead: self.dead as int,
            hyperparasitized: self.hyperparasitized as int,
            infection_rate: self.infection_rate as int,
            hyperparasitism_rate: self.hyperparasitism_rate as int,
            lifetimes: self.infected_lifetime@,
        }
    }
}

/// Shortens every lifetime by one day and drops those that end, keeping
/// the order of the rest.
fn age_lifetimes(lifetimes: &mut Vec<u32>)
    ensures
        final(lifetimes)@ == aged(old(lifetimes)@),
{
    let count: usize = lifetimes.len();
    let mut kept: usize = 0;
    let mut at: usize = 0;
    while at < count
        invariant
            kept <= at <= count,
            lifetimes@.len() == count,
            old(lifetimes)@.len() == count,
            lifetimes@.take(kept as int) == aged(old(lifetimes)@.take(at as int)),
            forall|j: int| at <= j < count ==> lifetimes@[j] == old(lifetimes)@[j],
        decreases count - at,
    {
        let lifetime: u32 = lifetimes[at];
        proof {
            lemma_aged_push(old(lifetimes)@.take(at as int), lifetime);
            assert(old(lifetimes)@.take(at as int).push(lifetime) =~= old(lifetimes)@.take(
                at + 1,
            ));
        }
        if lifetime > 1 {
            let ghost before = lifetimes@;
            lifetimes.set(kept, lifetime - 1);
            assert(lifetimes@.take(kept + 1) =~= before.take(kept as int).push(
                (lifetime - 1) as u32,
            ));
            kept += 1;
        } else {
            assert(lifetimes@.take(kept as int) == aged(old(lifetimes)@.take(at + 1)));
        }
        at += 1;
    }
    assert(old(lifetimes)@.take(count as int) =~= old(lifetimes)@);
    lifetimes.truncate(kept);
    assert(lifetimes@ =~= aged(old(lifetimes)@));
}

/// Counts the lifetimes that end within one day.
fn count_ending(lifetimes: &Vec<u32>) -> (count: usize)
    ensures
        count == ending(lifetimes@),
{
    let mut count: usize = 0;
    let mut at: usize = 0;
    while at < lifetimes.len()
        invariant
            count <= at <= lifetimes@.len(),
            count == ending(lifetimes@.take(at as int)),
        decreases lifetimes@.len() - at,
    {
        proof {
            lemma_aged_push(lifetimes@.take(at as int), lifetimes@[at as int]);
            assert(lifetimes@.take(at as int).push(lifetimes@[at as int]) =~= lifetimes@.take(
                at + 1,
            ));
        }
        if lifetimes[at] <= 1 {
            count += 1;
        }
        at += 1;
    }
    assert(lifetimes@.take(lifetimes@.len() as int) =~= lifetimes@);
    count
}

/// Counts the draws that fall below the rate.
fn count_below(draws: &Vec<u32>, rate: u32) -> (count: usize)
    ensures
        count == below(draws@, rate as int),
        count <= draws@.len(),
{
    let mut count: usize = 0;
    let mut at: usize = 0;
    proof {
        lemma_below_bounds(draws@, rate as int);
    }
    while at < draws.len()
        invariant
            count <= at <= draws@.len(),
            count == below(draws@.take(at as int), rate as int),
        decreases draws@.len() - at,
    {
        proof {
            lemma_below_push(draws@.take(at as int), draws@[at as int], rate as int);
            assert(draws@.take(at as int).push(draws@[at as int]) =~= draws@.take(at + 1));
        }
        if draws[at] < rate {
            count += 1;
        }
        at += 1;
    }
    assert(draws@.take(draws@.len() as int) =~= draws@);
    count
}

/// The size of a count that is within the bounds of a population.
fn size_of(count: i64) -> (size: u128)
    requires
        -MAX_POPULATION <= count <= MAX_POPULATION,
    ensures
        size == vstd::math::abs(count as int),
{
    if count < 0 {
        (-count) as u128
    } else {
        count as u128
    }
}

/// The product of two bounded factors is bounded by the product of their
/// bounds.
proof fn lemma_product_bound(a: int, a_max: int, b: int, b_max: int)
    requires
        0 <= a <= a_max,
        0 <= b <= b_max,
    ensures
        0 <= a * b <= a_max * b_max,
{
    assert(0 <= a * b <= a_max * b_max) by (nonlinear_arith)
        requires
            0 <= a <= a_max,
            0 <= b <= b_max,
    ;
}

/// The sign of the product under the force of infection goes by the signs
/// of the two counts.
proof fn lemma_signed_product(beta: int, s: int, i: int, dt: int)
    requires
        0 <= beta,
        0 <= dt,
    ensures
        (s < 0) != (i < 0) ==> beta * s * i * dt == -(beta * vstd::math::abs(s) * vstd::math::abs(
            i,
        ) * dt),
        (s < 0) == (i < 0) ==> beta * s * i * dt == beta * vstd::math::abs(s) * vstd::math::abs(i)
            * dt,
        0 <= beta * vstd::math::abs(s) * vstd::math::abs(i) * dt,
{
    let sm: int = vstd::math::abs(s) as int;
    let im: int = vstd::math::abs(i) as int;
    assert(0 <= beta * sm * im * dt) by (nonlinear_arith)
        requires
            0 <= beta,
            0 <= dt,
            0 <= sm,
            0 <= im,
    ;
    assert(beta * (-sm) * im * dt == -(beta * sm * im * dt)) by (nonlinear_arith);
    assert(beta * sm * (-im) * dt == -(beta * sm * im * dt)) by (nonlinear_arith);
    assert(beta * (-sm) * (-im) * dt == beta * sm * im * dt) by (nonlinear_arith);
}

impl AntSpecies {
    /// Makes a population of `s` susceptible, `i` infected and `d` dead
    /// individuals with the infection rate `beta` and the hyperparasitism
    /// rate `hp_rate`, all in thousandths. The values are checked: the
    /// population is made exactly where nothing is to be refused, and
    /// otherwise the first reason is returned. A negative susceptible
    /// count is accepted, as `settle_all` exists for it.
    pub fn new(name: String, s: i64, i: i64, d: i64, beta: u32, hp_rate: u32) -> (made: Result<
        AntSpecies,
        SpeciesError,
    >)
        ensures
            made is Ok <==> refusal(s as int, i as int, d as int, beta as int, hp_rate as int)
                is None,
            made is Err ==> refusal(s as int, i as int, d as int, beta as int, hp_rate as int)
                == Some(made->Err_0),
            made is Ok ==> made->Ok_0@ == SpeciesState::initial(
                name@,
                s as int,
                i as int,
                d as int,
                beta as int,
                hp_rate as int,
            ),
            made is Ok ==> made->Ok_0@.valid(),
    {
        if i < 0 || d < 0 {
            return Err(SpeciesError::NegativeCount);
        }
        if s < -MAX_POPULATION || s > MAX_POPULATION || i > MAX_POPULATION || d > MAX_POPULATION {
            return Err(SpeciesError::PopulationTooLarge);
        }
        let size: i64 = if s < 0 {
            -s
        } else {
            s
        };
        if size + i + d > MAX_POPULATION {
            return Err(SpeciesError::PopulationTooLarge);
        }
        if beta > MAX_RATE {
            return Err(SpeciesError::InfectionRateTooLarge);
        }
        if hp_rate > FULL_RATE {
            return Err(SpeciesError::HyperparasitismRateTooLarge);
        }
        Ok(
            AntSpecies {
                name,
                susceptible: s,
                infected: i,
                dead: d,
                infection_rate: beta,
                hyperparasitism_rate: hp_rate,
                infected_lifetime: Vec::new(),
                hyperparasitized: 0,
            },
        )
    }

    /// Gives one more infected individual a lifetime of `lifetime` days,
    /// where a whole individual of the infected compartment has none yet,
    /// and says whether it did.
    pub fn assign_lifetime(&mut self, lifetime: u32) -> (done: bool)
        requires
            old(self)@.valid(),
        ensures
            done == old(self)@.has_untimed(),
            done ==> final(self)@ == old(self)@.assign_lifetime(lifetime),
            !done ==> final(self)@ == old(self)@,
            final(self)@.valid(),
    {
        let count: usize = self.infected_lifetime.len();
        assert(UNIT * count <= MAX_POPULATION);
        let timed: i64 = UNIT * (count as i64);
        if self.infected - timed >= UNIT {
            self.infected_lifetime.push(lifetime);
            true
        } else {
            false
        }
    }

    /// One day of the infections, with the draws given: every lifetime is
    /// shortened by one day, and each infection that ends is settled by
    /// its draw, in the order in which the infections are held. An
    /// infection that ends loses its lifetime and leaves the infected
    /// compartment exactly once, whichever way it is settled. `draws` holds
    /// one draw for each infection that ends.
    pub fn update_infection_with(&mut self, draws: &Vec<u32>)
        requires
            old(self)@.valid(),
            draws@.len() == old(self)@.expiring(),
        ensures
            final(self)@ == old(self)@.resolve(draws@),
            final(self)@.valid(),
            forall|i: int|
                0 <= i < final(self)@.lifetimes.len() ==> #[trigger] final(self)@.lifetimes[i] >= 1,
    {
        proof {
            lemma_aged(self.infected_lifetime@);
        }
        let ended: usize = draws.len();
        let turned: usize = count_below(draws, self.hyperparasitism_rate);
        assert(UNIT * ended <= UNIT * self.infected_lifetime@.len()) by (nonlinear_arith)
            requires
                ended <= self.infected_lifetime@.len(),
        ;
        age_lifetimes(&mut self.infected_lifetime);
        self.infected = self.infected - UNIT * (ended as i64);
        self.hyperparasitized = self.hyperparasitized + UNIT * (turned as i64);
        self.dead = self.dead + UNIT * ((ended - turned) as i64);
    }

    /// One day of the infections: every lifetime is shortened by one day,
    /// and each infection that ends is settled by a draw from the unit
    /// interval.
    pub fn update_infection(&mut self)
        requires
            old(self)@.valid(),
        ensures
            old(self)@.resolves_to(final(self)@),
            final(self)@.valid(),
            forall|i: int|
                0 <= i < final(self)@.lifetimes.len() ==> #[trigger] final(self)@.lifetimes[i] >= 1,
    {
        let ending: usize = count_ending(&self.infected_lifetime);
        let draws: Vec<u32> = draw_uniform(ending, 0, FULL_RATE);
        self.update_infection_with(&draws);
    }
    /// Settles every timed infection at once, whatever its lifetime, with
    /// the draws given, and leaves nobody infected. `draws` holds one draw
    /// for each timed infection. The susceptible count stays as it is.
    pub fn settle_all_with(&mut self, draws: &Vec<u32>)
        requires
            old(self)@.valid(),
            draws@.len() == old(self)@.lifetimes.len(),
        ensures
            final(self)@ == old(self)@.settle_all(draws@),
            final(self)@.valid(),
    {
        let ended: usize = draws.len();
        let turned: usize = count_below(draws, self.hyperparasitism_rate);
        self.infected_lifetime.clear();
        self.infected = 0;
        self.hyperparasitized = self.hyperparasitized + UNIT * (turned as i64);
        self.dead = self.dead + UNIT * ((ended - turned) as i64);
        assert(self.infected_lifetime@ =~= Seq::<u32>::empty());
    }

    /// Settles every timed infection at once, whatever its lifetime, each
    /// by a draw from the unit interval, and leaves nobody infected.
    pub fn settle_all(&mut self)
        requires
            old(self)@.valid(),
        ensures
            old(self)@.settles_to(final(self)@),
            final(self)@.valid(),
            final(self)@.susceptible == old(self)@.susceptible,
            final(self)@.infected == 0,
            final(self)@.lifetimes.len() == 0,
            final(self)@.dead >= old(self)@.dead,
            final(self)@.hyperparasitized >= old(self)@.hyperparasitized,
            final(self)@.dead + final(self)@.hyperparasitized == old(self)@.dead + old(
                self,
            )@.hyperparasitized + UNIT * old(self)@.lifetimes.len(),
    {
        let draws: Vec<u32> = draw_uniform(self.infected_lifetime.len(), 0, FULL_RATE);
        proof {
            lemma_settle_all_accounts(self@, draws@);
        }
        self.settle_all_with(&draws);
    }

    /// The number of timed infections that end within one day.
    pub fn expiring(&self) -> (count: usize)
        ensures
            count == self@.expiring(),
    {
        count_ending(&self.infected_lifetime)
    }

    /// Whether the susceptible count is negative while infections are
    /// outstanding.
    pub fn is_anomalous(&self) -> (anomalous: bool)
        ensures
            anomalous == self@.anomalous(),
    {
        self.susceptible < 0 && self.infected > 0
    }

    /// Whether an injection of `new_infections` keeps the population valid.
    pub fn admits(&self, new_infections: i64) -> (admissible: bool)
        ensures
            admissible == self@.admissible(new_infections as int),
    {
        new_infections >= 0 || new_infections >= self.susceptible
    }

    /// The amount that an injection of `new_infections` moves.
    pub fn admitted(&self, new_infections: i64) -> (amount: i64)
        ensures
            amount == self@.admitted(new_infections as int),
    {
        if self.susceptible == 0 {
            0
        } else if new_infections <= self.susceptible {
            new_infections
        } else {
            self.susceptible
        }
    }

    /// The number of whole individuals that an injection of
    /// `new_infections` brings.
    pub fn arrivals(&self, new_infections: i64) -> (count: usize)
        requires
            self@.valid(),
        ensures
            count == self@.arrivals(new_infections as int),
    {
        let amount: i64 = self.admitted(new_infections);
        if amount > 0 {
            (amount / UNIT) as usize
        } else {
            0
        }
    }

    /// Injects `new_infections`, with the lifetimes of the arrivals
    /// given: the admitted amount moves from the susceptible to the
    /// infected compartment, and each whole individual in it is given the
    /// next of `lifetimes`.
    pub fn infect_with(&mut self, new_infections: i64, lifetimes: &Vec<u32>)
        requires
            old(self)@.valid(),
            old(self)@.admissible(new_infections as int),
            fresh_lifetimes(lifetimes@),
            lifetimes@.len() == old(self)@.arrivals(new_infections as int),
        ensures
            final(self)@ == old(self)@.infect(new_infections as int, lifetimes@),
            final(self)@.valid(),
            final(self)@.expiring() == old(self)@.expiring(),
    {
        proof {
            lemma_fresh_outlast(self.infected_lifetime@, lifetimes@);
        }
        let amount: i64 = self.admitted(new_infections);
        let ghost before = self.infected_lifetime@;
        let mut at: usize = 0;
        while at < lifetimes.len()
            invariant
                at <= lifetimes@.len(),
                self.infected_lifetime@ == before + lifetimes@.take(at as int),
                self.name == old(self).name,
                self.susceptible == old(self).susceptible,
                self.infected == old(self).infected,
                self.dead == old(self).dead,
                self.hyperparasitized == old(self).hyperparasitized,
                self.infection_rate == old(self).infection_rate,
                self.hyperparasitism_rate == old(self).hyperparasitism_rate,
            decreases lifetimes@.len() - at,
        {
            self.infected_lifetime.push(lifetimes[at]);
            assert(lifetimes@.take(at + 1) =~= lifetimes@.take(at as int).push(
                lifetimes@[at as int],
            ));
            assert(self.infected_lifetime@ =~= before + lifetimes@.take(at + 1));
            at += 1;
        }
        assert(lifetimes@.take(lifetimes@.len() as int) =~= lifetimes@);
        self.infected = self.infected + amount;
        self.susceptible = self.susceptible - amount;
    }

    /// Injects `new_infections`: the admitted amount moves from the
    /// susceptible to the infected compartment, and each whole individual
    /// in it is given a lifetime drawn from `MIN_LIFETIME` up to, but not
    /// including, `END_LIFETIME`.
    pub fn infect(&mut self, new_infections: i64)
        requires
            old(self)@.valid(),
            old(self)@.admissible(new_infections as int),
        ensures
            old(self)@.infects_to(new_infections as int, final(self)@),
            final(self)@.valid(),
            final(self)@.expiring() == old(self)@.expiring(),
            old(self)@.susceptible >= 0 ==> final(self)@.susceptible >= 0,
            old(self)@.susceptible == 0 ==> final(self)@ == old(self)@,
    {
        let count: usize = self.arrivals(new_infections);
        let lifetimes: Vec<u32> = draw_uniform(count, MIN_LIFETIME, END_LIFETIME);
        proof {
            if self@.susceptible == 0 {
                lemma_infect_without_susceptibles(self@, new_infections as int, lifetimes@);
            }
        }
        self.infect_with(new_infections, &lifetimes);
    }

    /// The force of infection over a time step `dt` in a total population
    /// of `total_population`.
    pub fn force_of_infection(&self, total_population: i64, dt: u32) -> (force: i128)
        requires
            self@.valid(),
            total_population > 0,
            dt <= MAX_STEP,
        ensures
            force == self@.force_of_infection(total_population as int, dt as int),
            vstd::math::abs(force as int) <= MAX_RATE * MAX_POPULATION * MAX_POPULATION * MAX_STEP,
    {
        let s: u128 = size_of(self.susceptible);
        let i: u128 = size_of(self.infected);
        proof {
            lemma_product_bound(
                self.infection_rate as int,
                MAX_RATE as int,
                s as int,
                MAX_POPULATION as int,
            );
            lemma_product_bound(
                self.infection_rate * s,
                MAX_RATE * MAX_POPULATION,
                i as int,
                MAX_POPULATION as int,
            );
            lemma_product_bound(
                self.infection_rate * s * i,
                MAX_RATE * MAX_POPULATION * MAX_POPULATION,
                dt as int,
                MAX_STEP as int,
            );
            lemma_product_bound(1, total_population as int, UNIT * UNIT, UNIT * UNIT);
            lemma_signed_product(
                self.infection_rate as int,
                self.susceptible as int,
                self.infected as int,
                dt as int,
            );
        }
        let numerator: u128 = (self.infection_rate as u128) * s * i * (dt as u128);
        let denominator: u128 = (total_population as u128) * ((UNIT * UNIT) as u128);
        let quotient: u128 = numerator / denominator;
        assert(quotient <= numerator) by (nonlinear_arith)
            requires
                quotient == numerator / denominator,
                denominator >= 1,
        ;
        assert(total_population * UNIT * UNIT == total_population * (UNIT * UNIT))
            by (nonlinear_arith);
        if (self.susceptible < 0) != (self.infected < 0) {
            -(quotient as i128)
        } else {
            quotient as i128
        }
    }
    /// One time step, with the lifetimes of the arrivals and the draws
    /// given: the force of infection is injected, then one day of the
    /// infections passes. `lifetimes` holds one lifetime for each arrival,
    /// `draws` one draw for each infection that ends.
    pub fn sir_step_with(
        &mut self,
        total_population: i64,
        dt: u32,
        lifetimes: &Vec<u32>,
        draws: &Vec<u32>,
    )
        requires
            old(self)@.valid(),
            total_population > 0,
            dt <= MAX_STEP,
            old(self)@.admissible(
                old(self)@.force_of_infection(total_population as int, dt as int),
            ),
            fresh_lifetimes(lifetimes@),
            lifetimes@.len() == old(self)@.arrivals(
                old(self)@.force_of_infection(total_population as int, dt as int),
            ),
            draws@.len() == old(self)@.expiring(),
        ensures
            final(self)@ == old(self)@.step(
                total_population as int,
                dt as int,
                lifetimes@,
                draws@,
            ),
            final(self)@.valid(),
            final(self)@.total() == old(self)@.total(),
            final(self)@.dead >= old(self)@.dead,
            final(self)@.hyperparasitized >= old(self)@.hyperparasitized,
            forall|i: int|
                0 <= i < final(self)@.lifetimes.len() ==> #[trigger] final(self)@.lifetimes[i] >= 1,
    {
        proof {
            lemma_step_conserves_total(
                self@,
                total_population as int,
                dt as int,
                lifetimes@,
                draws@,
            );
            lemma_step_is_monotonic(self@, total_population as int, dt as int, lifetimes@, draws@);
        }
        let new_infections: i64 = self.bounded_force(total_population, dt);
        self.infect_with(new_infections, lifetimes);
        self.update_infection_with(draws);
    }

    /// One time step: the force of infection is injected, each arrival
    /// with a drawn lifetime, then one day of the infections passes, each
    /// infection that ends being settled by a draw.
    pub fn sir_step(&mut self, total_population: i64, dt: u32)
        requires
            old(self)@.valid(),
            total_population > 0,
            dt <= MAX_STEP,
            old(self)@.admissible(
                old(self)@.force_of_infection(total_population as int, dt as int),
            ),
        ensures
            old(self)@.steps_to(total_population as int, dt as int, final(self)@),
            final(self)@.valid(),
            final(self)@.total() == old(self)@.total(),
            final(self)@.dead >= old(self)@.dead,
            final(self)@.hyperparasitized >= old(self)@.hyperparasitized,
            forall|i: int|
                0 <= i < final(self)@.lifetimes.len() ==> #[trigger] final(self)@.lifetimes[i] >= 1,
    {
        let new_infections: i64 = self.bounded_force(total_population, dt);
        let count: usize = self.arrivals(new_infections);
        let lifetimes: Vec<u32> = draw_uniform(count, MIN_LIFETIME, END_LIFETIME);
        let ending: usize = self.expiring();
        let draws: Vec<u32> = draw_uniform(ending, 0, FULL_RATE);
        self.sir_step_with(total_population, dt, &lifetimes, &draws);
    }

    /// The force of infection, cut off at `MAX_POPULATION`. No population
    /// has more susceptibles than that, so the injection of the amount
    /// that is returned is the injection of the force itself.
    fn bounded_force(&self, total_population: i64, dt: u32) -> (amount: i64)
        requires
            self@.valid(),
            total_population > 0,
            dt <= MAX_STEP,
            self@.admissible(self@.force_of_infection(total_population as int, dt as int)),
        ensures
            amount == vstd::math::min(
                self@.force_of_infection(total_population as int, dt as int),
                MAX_POPULATION as int,
            ),
            self@.admissible(amount as int),
            self@.admitted(amount as int) == self@.admitted(
                self@.force_of_infection(total_population as int, dt as int),
            ),
            self@.arrivals(amount as int) == self@.arrivals(
                self@.force_of_infection(total_population as int, dt as int),
            ),
    {
        let force: i128 = self.force_of_infection(total_population, dt);
        if force > MAX_POPULATION as i128 {
            MAX_POPULATION
        } else {
            force as i64
        }
    }

    /// The daily update of one population in a total population of
    /// `total_population`: an anomalous population has its timed
    /// infections settled at once; any other takes a time step of one day.
    pub fn epidemic_tick(&mut self, total_population: i64)
        requires
            old(self)@.valid(),
            total_population > 0,
        ensures
            old(self)@.ticks_to(total_population as int, final(self)@),
            final(self)@.valid(),
    {
        if self.is_anomalous() {
            self.settle_all();
        } else {
            proof {
                lemma_regular_force(self@, total_population as int, UNIT as int);
            }
            self.sir_step(total_population, ONE_DAY);
        }
    }
    /// The name of the species.
    pub fn name(&self) -> (name: &String)
        ensures
            name@ == self@.name,
    {
        &self.name
    }

    /// The susceptible count, in thousandths.
    pub fn susceptible(&self) -> (count: i64)
        ensures
            count == self@.susceptible,
    {
        self.susceptible
    }

    /// The infected count, in thousandths.
    pub fn infected(&self) -> (count: i64)
        ensures
            count == self@.infected,
    {
        self.infected
    }

    /// The dead count, in thousandths.
    pub fn dead(&self) -> (count: i64)
        ensures
            count == self@.dead,
    {
        self.dead
    }

    /// The hyperparasitized count, in thousandths.
    pub fn hyperparasitized(&self) -> (count: i64)
        ensures
            count == self@.hyperparasitized,
    {
        self.hyperparasitized
    }

    /// The infection rate, in thousandths.
    pub fn infection_rate(&self) -> (rate: u32)
        ensures
            rate == self@.infection_rate,
    {
        self.infection_rate
    }

    /// The hyperparasitism rate, in thousandths.
    pub fn hyperparasitism_rate(&self) -> (rate: u32)
        ensures
            rate == self@.hyperparasitism_rate,
    {
        self.hyperparasitism_rate
    }

    /// The days left to each timed infection.
    pub fn infected_lifetime(&self) -> (lifetimes: &Vec<u32>)
        ensures
            lifetimes@ == self@.lifetimes,
    {
        &self.infected_lifetime
    }
}

} // verus!
