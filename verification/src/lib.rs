//! A bounded production/consumption pipeline with after-the-fact verification.
//!
//! Idea producers and package producers fill shared queues, students drain them
//! and build each idea from the packages it requires, and four order-independent
//! checksum accumulators record what was produced and what was consumed.

pub mod accumulator;
pub mod checksum;
pub mod config;
pub mod conservation;
pub mod idea;
pub mod orchestrator;
pub mod package;
pub mod partition;
pub mod queue;
pub mod student;
