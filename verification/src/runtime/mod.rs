//! Agent runtime: the system prompt's parts, the calendar date it shows,
//! persistent memory and skills.
pub mod agent;
pub mod calendar;
pub mod events;
pub mod memory;
pub mod skills;
pub mod providers;
pub mod message;
pub mod summarizer;
