pub mod args;
pub mod counters;
pub mod events;
pub mod printer;
pub mod walk;
