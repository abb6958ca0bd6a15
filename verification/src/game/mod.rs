/// Contains the [context::GameContext] struct and the hit tests.
pub mod context;
/// Contains the [scheduler::Scheduler] of the game loop.
pub mod scheduler;
