//! The mathematical value of a population and its transitions.

use vstd::prelude::*;

verus! {

/// One whole individual, a rate of one, or one day, in thousandths.
pub const UNIT: i64 = 1000;

/// A rate of one, in thousandths. Draws of the unit interval lie below it.
pub const FULL_RATE: u32 = 1000;

/// A time step of one day, in thousandths.
pub const ONE_DAY: u32 = 1000;

/// The largest magnitude a population may have, in thousandths.
pub const MAX_POPULATION: i64 = 1_000_000_000_000;

/// The largest infection rate, in thousandths.
pub const MAX_RATE: u32 = 1_000_000;

/// The longest time step, in thousandths of a day.
pub const MAX_STEP: u32 = 1_000_000;

/// The shortest lifetime a new infection may be given, in days.
pub const MIN_LIFETIME: u32 = 4;

/// The first lifetime that is too long for a new infection, in days.
pub const END_LIFETIME: u32 = 8;

/// Whether an infection with this many days left is still running after
/// one more day.
pub open spec fn outlasts_day(lifetime: u32) -> bool {
    lifetime > 1
}

/// The lifetimes that remain after one day: every lifetime that does not
/// end that day, shortened by one, in the order it had.
pub open spec fn aged(lifetimes: Seq<u32>) -> Seq<u32> {
    lifetimes.filter(|l: u32| outlasts_day(l)).map_values(|l: u32| (l - 1) as u32)
}

/// How many of the lifetimes end within one day.
pub open spec fn ending(lifetimes: Seq<u32>) -> nat {
    lifetimes.filter(|l: u32| !outlasts_day(l)).len()
}

/// How many of the draws fall below the rate, that is, how many of the
/// settled individuals become hyperparasitized.
pub open spec fn below(draws: Seq<u32>, rate: int) -> nat {
    draws.filter(|d: u32| d < rate).len()
}

/// Whether every lifetime is one that a new infection may be given.
pub open spec fn fresh_lifetimes(lifetimes: Seq<u32>) -> bool {
    forall|i: int|
        0 <= i < lifetimes.len() ==> MIN_LIFETIME <= #[trigger] lifetimes[i] < END_LIFETIME
}

/// Whether every draw is a value of the unit interval, in thousandths.
pub open spec fn unit_draws(draws: Seq<u32>) -> bool {
    forall|i: int| 0 <= i < draws.len() ==> #[trigger] draws[i] < UNIT
}

/// The quotient of `numerator` by a positive `denominator`, rounded
/// towards zero.
pub open spec fn quotient_towards_zero(numerator: int, denominator: int) -> int {
    if numerator >= 0 {
        numerator / denominator
    } else {
        -((-numerator) / denominator)
    }
}

/// The value of one population. Counts, rates and time steps are in
/// thousandths; lifetimes are in days.
pub struct SpeciesState {
    pub name: Seq<char>,
    pub susceptible: int,
    pub infected: int,
    pub dead: int,
    pub hyperparasitized: int,
    pub infection_rate: int,
    pub hyperparasitism_rate: int,
    /// The days left to each timed infection.
    pub lifetimes: Seq<u32>,
}

impl SpeciesState {
    /// The sum of the four compartments.
    pub open spec fn total(self) -> int {
        self.susceptible + self.infected + self.dead + self.hyperparasitized
    }

    /// The part of the infected compartment that has a lifetime.
    pub open spec fn timed(self) -> int {
        UNIT * self.lifetimes.len()
    }

    /// The rest of the infected compartment, which never ends.
    pub open spec fn untimed(self) -> int {
        self.infected - self.timed()
    }

    /// The size by which a population is bounded.
    pub open spec fn magnitude(self) -> int {
        vstd::math::abs(self.susceptible) + vstd::math::abs(self.untimed()) + self.timed()
            + self.dead + self.hyperparasitized
    }

    /// What holds of every population: the rates are in range, the dead
    /// and the hyperparasitized are not negative, the timed infections
    /// are part of the infected compartment unless the susceptible count
    /// is exactly zero, and the magnitude is bounded.
    pub open spec fn valid(self) -> bool {
        &&& 0 <= self.infection_rate <= MAX_RATE
        &&& 0 <= self.hyperparasitism_rate <= UNIT
        &&& 0 <= self.dead
        &&& 0 <= self.hyperparasitized
        &&& self.susceptible != 0 ==> self.untimed() >= 0
        &&& self.magnitude() <= MAX_POPULATION
    }

    /// Whether the susceptible count is negative while infections are
    /// outstanding.
    pub open spec fn anomalous(self) -> bool {
        self.susceptible < 0 && self.infected > 0
    }

    /// The amount that an injection of `new_infections` moves from the
    /// susceptible to the infected compartment: nothing where there are no
    /// susceptibles, and never more than there are.
    pub open spec fn admitted(self, new_infections: int) -> int {
        if self.susceptible == 0 {
            0
        } else {
            vstd::math::min(new_infections, self.susceptible)
        }
    }

    /// The number of whole individuals among the admitted amount; each of
    /// them is given a lifetime.
    pub open spec fn arrivals(self, new_infections: int) -> nat {
        if self.admitted(new_infections) > 0 {
            (self.admitted(new_infections) / (UNIT as int)) as nat
        } else {
            0
        }
    }

    /// Whether an injection of `new_infections` keeps the population valid:
    /// the amount is not below the lesser of zero and the susceptible count.
    pub open spec fn admissible(self, new_infections: int) -> bool {
        new_infections >= vstd::math::min(self.susceptible, 0)
    }

    /// The population after an injection whose arrivals are given
    /// `lifetimes`.
    pub open spec fn infect(self, new_infections: int, lifetimes: Seq<u32>) -> SpeciesState {
        SpeciesState {
            susceptible: self.susceptible - self.admitted(new_infections),
            infected: self.infected + self.admitted(new_infections),
            lifetimes: self.lifetimes + lifetimes,
            ..self
        }
    }

    /// Whether one more infected individual can be given a lifetime: a
    /// whole individual of the infected compartment has none yet.
    pub open spec fn has_untimed(self) -> bool {
        self.untimed() >= UNIT
    }

    /// The population after one more infected individual has been given
    /// `lifetime` days.
    pub open spec fn assign_lifetime(self, lifetime: u32) -> SpeciesState {
        SpeciesState { lifetimes: self.lifetimes.push(lifetime), ..self }
    }

    /// The number of timed infections that end within one day.
    pub open spec fn expiring(self) -> nat {
        ending(self.lifetimes)
    }

    /// The population after one day of its infections, where `draws` holds
    /// one draw for each infection that ends: the individual becomes
    /// hyperparasitized where its draw is below the hyperparasitism rate,
    /// and dies otherwise.
    pub open spec fn resolve(self, draws: Seq<u32>) -> SpeciesState {
        let hyperparasitized = below(draws, self.hyperparasitism_rate);
        SpeciesState {
            infected: self.infected - UNIT * draws.len(),
            hyperparasitized: self.hyperparasitized + UNIT * hyperparasitized,
            dead: self.dead + UNIT * (draws.len() - hyperparasitized),
            lifetimes: aged(self.lifetimes),
            ..self
        }
    }

    /// The population after every timed infection has been settled at
    /// once, whatever its lifetime, where `draws` holds one draw for each of
    /// them. Nobody is left infected.
    pub open spec fn settle_all(self, draws: Seq<u32>) -> SpeciesState {
        let hyperparasitized = below(draws, self.hyperparasitism_rate);
        SpeciesState {
            infected: 0,
            hyperparasitized: self.hyperparasitized + UNIT * hyperparasitized,
            dead: self.dead + UNIT * (draws.len() - hyperparasitized),
            lifetimes: Seq::empty(),
            ..self
        }
    }

    /// The mass-action force of infection over a time step `dt` in a
    /// total population of `total_population`: the infection rate times the
    /// susceptible count times the infected count times the step, divided
    /// by the total population, rounded towards zero.
    pub open spec fn force_of_infection(self, total_population: int, dt: int) -> int {
        quotient_towards_zero(
            self.infection_rate * self.susceptible * self.infected * dt,
            total_population * UNIT * UNIT,
        )
    }

    /// The population after one time step: the force of infection is
    /// injected, then one day of the infections passes.
    pub open spec fn step(
        self,
        total_population: int,
        dt: int,
        lifetimes: Seq<u32>,
        draws: Seq<u32>,
    ) -> SpeciesState {
        self.infect(self.force_of_infection(total_population, dt), lifetimes).resolve(draws)
    }

    /// Whether `after` is this population after an injection of
    /// `new_infections`, for some lifetimes of its arrivals, each from
    /// `MIN_LIFETIME` up to, but not including, `END_LIFETIME`.
    pub open spec fn infects_to(self, new_infections: int, after: SpeciesState) -> bool {
        exists|lifetimes: Seq<u32>|
            fresh_lifetimes(lifetimes) && lifetimes.len() == self.arrivals(new_infections)
                && after == #[trigger] self.infect(new_infections, lifetimes)
    }

    /// Whether `after` is this population after one day of its infections,
    /// for some draws of the unit interval, one for each infection that
    /// ends.
    pub open spec fn resolves_to(self, after: SpeciesState) -> bool {
        exists|draws: Seq<u32>|
            unit_draws(draws) && draws.len() == self.expiring() && after
                == #[trigger] self.resolve(draws)
    }

    /// Whether `after` is this population after every timed infection has
    /// been settled at once, for some draws of the unit interval, one for
    /// each of them.
    pub open spec fn settles_to(self, after: SpeciesState) -> bool {
        exists|draws: Seq<u32>|
            unit_draws(draws) && draws.len() == self.lifetimes.len() && after
                == #[trigger] self.settle_all(draws)
    }

    /// Whether `after` is this population after one time step, for some
    /// lifetimes of its arrivals and some draws of the unit interval, one
    /// for each infection that ends.
    pub open spec fn steps_to(self, total_population: int, dt: int, after: SpeciesState) -> bool {
        exists|lifetimes: Seq<u32>, draws: Seq<u32>|
            fresh_lifetimes(lifetimes) && lifetimes.len() == self.arrivals(
                self.force_of_infection(total_population, dt),
            ) && unit_draws(draws) && draws.len() == self.expiring() && after
                == #[trigger] self.step(total_population, dt, lifetimes, draws)
    }

    /// Whether `after` is what the daily update makes of this population:
    /// an anomalous population has its timed infections settled at once,
    /// any other takes a time step of one day.
    pub open spec fn ticks_to(self, total_population: int, after: SpeciesState) -> bool {
        if self.anomalous() {
            self.settles_to(after)
        } else {
            self.steps_to(total_population, ONE_DAY as int, after)
        }
    }

    /// The population that is made of the given values: nobody is
    /// hyperparasitized and no infection has a lifetime.
    pub open spec fn initial(
        name: Seq<char>,
        s: int,
        i: int,
        d: int,
        beta: int,
        hp_rate: int,
    ) -> SpeciesState {
        SpeciesState {
            name,
            susceptible: s,
            infected: i,
            dead: d,
            hyperparasitized: 0,
            infection_rate: beta,
            hyperparasitism_rate: hp_rate,
            lifetimes: Seq::empty(),
        }
    }
}

/// What one time step takes from outside: the lifetimes of its arrivals
/// and the draws for the infections that end.
pub struct Day {
    pub lifetimes: Seq<u32>,
    pub draws: Seq<u32>,
}

/// The population after one time step for each of `days`, in their order.
pub open spec fn after_days(
    state: SpeciesState,
    total_population: int,
    dt: int,
    days: Seq<Day>,
) -> SpeciesState
    decreases days.len(),
{
    if days.len() == 0 {
        state
    } else {
        after_days(state, total_population, dt, days.drop_last()).step(
            total_population,
            dt,
            days.last().lifetimes,
            days.last().draws,
        )
    }
}

/// Ageing one more lifetime: it stays, one day shorter, if it outlasts the
/// day, and leaves otherwise.
pub proof fn lemma_aged_push(lifetimes: Seq<u32>, lifetime: u32)
    ensures
        aged(lifetimes.push(lifetime)) == if outlasts_day(lifetime) {
            aged(lifetimes).push((lifetime - 1) as u32)
        } else {
            aged(lifetimes)
        },
        ending(lifetimes.push(lifetime)) == if outlasts_day(lifetime) {
            ending(lifetimes)
        } else {
            ending(lifetimes) + 1
        },
{
    reveal(Seq::filter);
    let longer = lifetimes.push(lifetime);
    assert(longer.drop_last() =~= lifetimes);
    let stays = |l: u32| outlasts_day(l);
    let shorten = |l: u32| (l - 1) as u32;
    if outlasts_day(lifetime) {
        assert(longer.filter(stays) == lifetimes.filter(stays).push(lifetime));
        assert(longer.filter(stays).map_values(shorten) =~= lifetimes.filter(stays).map_values(
            shorten,
        ).push((lifetime - 1) as u32));
    }
}

/// Every lifetime either stays or ends, and those that stay have at least
/// one day left.
pub proof fn lemma_aged(lifetimes: Seq<u32>)
    ensures
        aged(lifetimes).len() + ending(lifetimes) == lifetimes.len(),
        forall|i: int| 0 <= i < aged(lifetimes).len() ==> #[trigger] aged(lifetimes)[i] >= 1,
    decreases lifetimes.len(),
{
    reveal(Seq::filter);
    if lifetimes.len() > 0 {
        let shorter = lifetimes.drop_last();
        lemma_aged(shorter);
        lemma_aged_push(shorter, lifetimes.last());
        assert(shorter.push(lifetimes.last()) =~= lifetimes);
    }
}

/// Fresh lifetimes add nothing to the infections that end within a day.
pub proof fn lemma_fresh_outlast(lifetimes: Seq<u32>, fresh: Seq<u32>)
    requires
        fresh_lifetimes(fresh),
    ensures
        ending(lifetimes + fresh) == ending(lifetimes),
    decreases fresh.len(),
{
    if fresh.len() == 0 {
        assert(lifetimes + fresh =~= lifetimes);
    } else {
        let shorter = fresh.drop_last();
        lemma_fresh_outlast(lifetimes, shorter);
        lemma_aged_push(lifetimes + shorter, fresh.last());
        assert((lifetimes + shorter).push(fresh.last()) =~= lifetimes + fresh);
    }
}

/// Counting one more draw.
pub proof fn lemma_below_push(draws: Seq<u32>, draw: u32, rate: int)
    ensures
        below(draws.push(draw), rate) == if draw < rate {
            below(draws, rate) + 1
        } else {
            below(draws, rate)
        },
{
    reveal(Seq::filter);
    assert(draws.push(draw).drop_last() =~= draws);
}

/// Of the draws, no more fall below a rate than there are; none falls
/// below a rate of zero; and every draw of the unit interval falls below a
/// rate of one.
pub proof fn lemma_below_bounds(draws: Seq<u32>, rate: int)
    ensures
        below(draws, rate) <= draws.len(),
        rate <= 0 ==> below(draws, rate) == 0,
        rate >= UNIT && unit_draws(draws) ==> below(draws, rate) == draws.len(),
    decreases draws.len(),
{
    reveal(Seq::filter);
    if draws.len() > 0 {
        lemma_below_bounds(draws.drop_last(), rate);
    }
}

/// Where a valid population is not anomalous, the force of infection is
/// not negative, so its injection is admissible.
pub proof fn lemma_regular_force(state: SpeciesState, total_population: int, dt: int)
    requires
        state.valid(),
        !state.anomalous(),
        total_population > 0,
        dt >= 0,
    ensures
        state.force_of_infection(total_population, dt) >= 0,
        state.admissible(state.force_of_infection(total_population, dt)),
{
    let beta = state.infection_rate;
    let s = state.susceptible;
    let i = state.infected;
    let numerator = beta * s * i * dt;
    let denominator = total_population * UNIT * UNIT;
    assert(denominator > 0) by (nonlinear_arith)
        requires
            denominator == total_population * UNIT * UNIT,
            total_population > 0,
            UNIT == 1000,
    ;
    if s > 0 {
        assert(i >= 0);
        assert(numerator >= 0) by (nonlinear_arith)
            requires
                numerator == beta * s * i * dt,
                beta >= 0,
                s >= 0,
                i >= 0,
                dt >= 0,
        ;
    } else if s == 0 {
        assert(numerator == 0) by (nonlinear_arith)
            requires
                numerator == beta * s * i * dt,
                s == 0,
        ;
    } else {
        assert(i == 0);
        assert(numerator == 0) by (nonlinear_arith)
            requires
                numerator == beta * s * i * dt,
                i == 0,
        ;
    }
    assert(numerator / denominator >= 0) by (nonlinear_arith)
        requires
            numerator >= 0,
            denominator > 0,
    ;
}

} // verus!
