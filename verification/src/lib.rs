//! A colony of foraging agents on a 2D grid that communicate through decaying
//! pheromone fields, together with a small feed-forward controller and a
//! population-based, gradient-free optimizer that trains it on whole
//! simulation episodes.
//!
//! All quantities are fixed-point integers in micro-units: the constant
//! [`fixed::FX_ONE`] stands for the real value 1.0, angles are measured in
//! micro-turns of [`trig::FULL_TURN`] per revolution, and randomness comes
//! from an explicit, seedable generator ([`rng::Rng`]), so every run is a
//! deterministic function of its seed.
//!
//! The modules, leaves first: [`fixed`], [`rng`], [`trig`] and [`utils`]
//! hold the arithmetic, random and planar-vector groundwork;
//! [`environment`] the arena grid with its decay and deposit rules;
//! [`neural_network`] the policy network with its flatten/rebuild round
//! trip; [`ant`] the agent's move/forage/decide tick; [`colony`] the
//! fixed-order pass over all agents; [`simulation`] the episode driver; and
//! [`nes`] the evolution-strategies optimizer over episode fitness.

pub mod fixed;
pub mod rng;
pub mod trig;
pub mod utils;
pub mod environment;
pub mod neural_network;
pub mod ant;
pub mod colony;
pub mod simulation;
pub mod nes;
