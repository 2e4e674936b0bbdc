//! Accumulators that add numbers in batches of a fixed size and hand the total
//! of each batch to a callback; one of them also reports when the running total
//! of an open batch reaches a limit.
pub mod engine;
pub mod callbacks;
pub mod accumulator;
pub mod limited;
pub mod ws;

pub use limited::Accumulator;
pub use callbacks::CallbackHolder;
pub use engine::Notification;
