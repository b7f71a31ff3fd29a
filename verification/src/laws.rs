//! What holds of the transitions, whatever the lifetimes and the draws.

use crate::state::{
    after_days, fresh_lifetimes, lemma_aged, lemma_below_bounds, unit_draws, Day,
    SpeciesState, END_LIFETIME, MIN_LIFETIME, UNIT,
};
use vstd::prelude::*;

verus! {

/// A time step makes and loses nobody: the sum of the four compartments
/// after it is the sum before it.
pub proof fn lemma_step_conserves_total(
    state: SpeciesState,
    total_population: int,
    dt: int,
    lifetimes: Seq<u32>,
    draws: Seq<u32>,
)
    ensures
        state.step(total_population, dt, lifetimes, draws).total() == state.total(),
{
}

/// In a time step the dead and the hyperparasitized never become fewer.
pub proof fn lemma_step_is_monotonic(
    state: SpeciesState,
    total_population: int,
    dt: int,
    lifetimes: Seq<u32>,
    draws: Seq<u32>,
)
    ensures
        state.step(total_population, dt, lifetimes, draws).dead >= state.dead,
        state.step(total_population, dt, lifetimes, draws).hyperparasitized
            >= state.hyperparasitized,
{
    lemma_below_bounds(draws, state.hyperparasitism_rate);
}

/// Over any number of time steps the sum of the four compartments stays
/// what it was, and the dead and the hyperparasitized never become fewer.
pub proof fn lemma_days_conserve_and_grow(
    state: SpeciesState,
    total_population: int,
    dt: int,
    days: Seq<Day>,
)
    ensures
        after_days(state, total_population, dt, days).total() == state.total(),
        after_days(state, total_population, dt, days).dead >= state.dead,
        after_days(state, total_population, dt, days).hyperparasitized >= state.hyperparasitized,
    decreases days.len(),
{
    if days.len() > 0 {
        let earlier = after_days(state, total_population, dt, days.drop_last());
        lemma_days_conserve_and_grow(state, total_population, dt, days.drop_last());
        lemma_step_conserves_total(
            earlier,
            total_population,
            dt,
            days.last().lifetimes,
            days.last().draws,
        );
        lemma_step_is_monotonic(
            earlier,
            total_population,
            dt,
            days.last().lifetimes,
            days.last().draws,
        );
    }
}

/// An injection that asks for no more than the susceptible count leaves
/// that count at zero or above, and so does any injection into a
/// susceptible count that is not negative.
pub proof fn lemma_infect_keeps_susceptible(
    state: SpeciesState,
    new_infections: int,
    lifetimes: Seq<u32>,
)
    ensures
        new_infections <= state.susceptible ==> state.infect(new_infections, lifetimes).susceptible
            >= 0,
        state.susceptible >= 0 ==> state.infect(new_infections, lifetimes).susceptible >= 0,
{
}

/// Where nobody is susceptible, an injection changes nothing.
pub proof fn lemma_infect_without_susceptibles(
    state: SpeciesState,
    new_infections: int,
    lifetimes: Seq<u32>,
)
    requires
        state.susceptible == 0,
        lifetimes.len() == state.arrivals(new_infections),
    ensures
        state.infect(new_infections, lifetimes) == state,
{
    assert(state.lifetimes + lifetimes =~= state.lifetimes);
}

/// An injection keeps the lifetimes that were there and appends those of
/// its arrivals, each of which lies from `MIN_LIFETIME` up to, but not
/// including, `END_LIFETIME`.
pub proof fn lemma_infect_appends_fresh(
    state: SpeciesState,
    new_infections: int,
    lifetimes: Seq<u32>,
)
    requires
        fresh_lifetimes(lifetimes),
    ensures
        state.infect(new_infections, lifetimes).lifetimes.len() == state.lifetimes.len()
            + lifetimes.len(),
        forall|i: int|
            0 <= i < state.lifetimes.len() ==> #[trigger] state.infect(
                new_infections,
                lifetimes,
            ).lifetimes[i] == state.lifetimes[i],
        forall|i: int|
            state.lifetimes.len() <= i < state.lifetimes.len() + lifetimes.len() ==> MIN_LIFETIME
                <= #[trigger] state.infect(new_infections, lifetimes).lifetimes[i] < END_LIFETIME,
{
    let after = state.infect(new_infections, lifetimes).lifetimes;
    assert forall|i: int|
        state.lifetimes.len() <= i < state.lifetimes.len() + lifetimes.len() implies MIN_LIFETIME
        <= #[trigger] after[i] < END_LIFETIME by {
        assert(after[i] == lifetimes[i - state.lifetimes.len()]);
    }
}

/// After one day of the infections every lifetime that is left has at
/// least one day to go.
pub proof fn lemma_resolve_leaves_none_ended(state: SpeciesState, draws: Seq<u32>)
    ensures
        forall|i: int|
            0 <= i < state.resolve(draws).lifetimes.len() ==> #[trigger] state.resolve(
                draws,
            ).lifetimes[i] >= 1,
        state.resolve(draws).lifetimes.len() + state.expiring() == state.lifetimes.len(),
{
    lemma_aged(state.lifetimes);
}

/// One day of the infections takes one individual out of the infected
/// compartment for each draw and adds it to the dead or to the
/// hyperparasitized; the susceptible count stays as it was. With a
/// hyperparasitism rate of zero every one of them dies, and with a rate of
/// one every one of them becomes hyperparasitized.
pub proof fn lemma_resolve_accounts(state: SpeciesState, draws: Seq<u32>)
    ensures
        state.resolve(draws).susceptible == state.susceptible,
        state.resolve(draws).infected == state.infected - UNIT * draws.len(),
        state.resolve(draws).dead >= state.dead,
        state.resolve(draws).hyperparasitized >= state.hyperparasitized,
        state.resolve(draws).dead + state.resolve(draws).hyperparasitized == state.dead
            + state.hyperparasitized + UNIT * draws.len(),
        state.hyperparasitism_rate <= 0 ==> state.resolve(draws).hyperparasitized
            == state.hyperparasitized,
        state.hyperparasitism_rate >= UNIT && unit_draws(draws) ==> state.resolve(draws).dead
            == state.dead,
{
    lemma_below_bounds(draws, state.hyperparasitism_rate);
}

/// Settling every timed infection at once leaves the susceptible count
/// as it was, nobody infected and no lifetime, and adds one individual to
/// the dead or to the hyperparasitized for each draw.
pub proof fn lemma_settle_all_accounts(state: SpeciesState, draws: Seq<u32>)
    ensures
        state.settle_all(draws).susceptible == state.susceptible,
        state.settle_all(draws).infected == 0,
        state.settle_all(draws).lifetimes.len() == 0,
        state.settle_all(draws).dead >= state.dead,
        state.settle_all(draws).hyperparasitized >= state.hyperparasitized,
        state.settle_all(draws).dead + state.settle_all(draws).hyperparasitized == state.dead
            + state.hyperparasitized + UNIT * draws.len(),
{
    lemma_below_bounds(draws, state.hyperparasitism_rate);
}

} // verus!
