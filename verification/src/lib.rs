//! A merge bot's event processor and merge queue for one repository, as a
//! state machine without I/O.
//!
//! The bot gates merges on review and on the checks of a merge commit that
//! is made ahead of the merge, one pull request at a time, the highest
//! priority first and within one priority in the order of arrival.
//!
//! [`event_processor::EventProcessor`] owns the table of open pull requests
//! and the queue. It is driven from outside: a request goes in through
//! `handle_request`, and what comes back is an [`step::Outcome`], the calls
//! to make on the forge and the next [`step::Step`]. A step names what the
//! driver has to find out (a review decision, what a comment says, whether
//! its sender may say it, the merge commit of a candidate, the fate of a
//! merge) and the method that takes the answer. Every request ends with
//! one evaluation of the queue.
//!
//! Each method is specified by a function of [`transition`] or [`queue`] on
//! the state as a mathematical value ([`model::State`]); [`laws`] holds
//! what follows for every state and every input.

pub mod command;
pub mod config;
pub mod context;
pub mod event;
pub mod event_processor;
pub mod forge;
pub mod git;
pub mod laws;
pub mod model;
pub mod queue;
pub mod state;
pub mod step;
pub mod table;
pub mod text;
pub mod transition;
