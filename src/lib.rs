//! A durable work queue: task records with a schedule and a lifecycle state,
//! a claim protocol that hands each eligible task to one worker at a time, a
//! typestate lifecycle for claimed tasks, and a batch scheduler.
pub mod database;
pub mod error;
pub mod lifecycle;
pub mod listener;
pub mod runtime;
pub mod scheduler;
pub mod store;
pub mod task;
