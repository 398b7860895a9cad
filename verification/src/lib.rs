//! A grid simulation engine for small two-dimensional cellular automata:
//! random seeding, cave erosion, a colour-mutating variant of Life and heat
//! diffusion, all on one fixed-size grid that is updated a whole step at a
//! time.

pub mod cell;
pub mod grid;
pub mod erosion;
pub mod diffusion;
pub mod deposit;
pub mod chance;
pub mod mutation;
pub mod life;
pub mod seeding;
pub mod report;
pub mod world;
