pub mod clock;
pub mod engine;
pub mod events;
pub mod laws;
pub mod liveness;
pub mod model;
pub mod names;
pub mod room;
pub mod scoring;
pub mod state;
pub mod timers;
pub mod words;
