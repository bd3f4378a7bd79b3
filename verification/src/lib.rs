//! Evolutionary search for landing trajectories: the decisions of the search.
//!
//! A lander is steered by a sequence of commands, each a tilt angle and an
//! engine power. The search keeps a population of such sequences, flies them
//! all, scores how each flight ended, and breeds the next population from the
//! best.
//!
//! This crate holds what the search decides: the arithmetic on genes
//! ([`genes`], [`chromosome`]), selection and breeding ([`ranking`],
//! [`solver`]), the rules of the engine ([`physics`]), the naming of a
//! landing ([`collision`]), the walk along the boundary of the map
//! ([`terrain`]), the bookkeeping of a flight ([`lander_runner`]) and what a
//! fitness is made of ([`fitness`]). Every function is verified against its
//! contract, except the two draws in [`random`], which state what the
//! generator's own code shows.
//!
//! Quantities that are measured rather than counted, such as distances and
//! speeds, never enter the arithmetic of this crate. Where it has to compare
//! them it takes them as integers that order as they do
//! ([`collision::Measure`]); where it only carries them it takes them as they
//! are. Computing with them is left to the caller, who hands the runner a
//! function that computes one tick of one lander.

pub mod chromosome;
pub mod collision;
pub mod fitness;
pub mod fraction;
pub mod genes;
pub mod lander_runner;
pub mod physics;
pub mod random;
pub mod ranking;
pub mod solver;
pub mod terrain;
