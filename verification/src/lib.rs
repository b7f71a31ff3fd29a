//! A day-by-day epidemic model for independent ant populations.
//!
//! Each population is split into four compartments: susceptible, infected,
//! dead and hyperparasitized. Once a day new infections are moved from the
//! susceptible to the infected compartment by a mass-action term, every
//! timed infection comes one day closer to its end, and each infection that
//! ends is settled by a weighted draw: the individual either becomes
//! hyperparasitized or dies.
//!
//! All quantities are fixed-point integers counted in thousandths: `UNIT`
//! is one whole individual, `FULL_RATE` a rate of one and `ONE_DAY` a time
//! step of one day. Every transition is stated as a function on
//! `SpeciesState`, the mathematical value of a population, and every
//! executable operation is proved to compute that function.
//!
//! The compartments are fractional. An injection moves the whole admitted
//! amount, fraction included, but only the whole individuals in it are
//! given a lifetime; the share of the infected compartment that has no
//! lifetime never ends. An infection that ends loses its lifetime and
//! leaves the infected compartment exactly once. A population whose
//! susceptible count is negative while infections are outstanding is
//! anomalous: the daily update settles its timed infections at once
//! instead of stepping it.
//!
//! Randomness enters in one place only, `draw_uniform`. Each stochastic
//! operation comes in two forms: one that takes the drawn values as an
//! argument and is fully determined by them, and one that draws them itself.

pub mod laws;
pub mod model;
pub mod random;
pub mod species;
pub mod state;
