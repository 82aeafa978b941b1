//! A falling-characters terminal animation: the drops, their population,
//! the frame timing and the event-driven control loop, with their contracts.

pub mod particle;
pub mod random;
pub mod simulation;
pub mod timing;
pub mod control;
