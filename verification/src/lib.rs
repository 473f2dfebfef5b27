//! The proving core: the decisions of a zero-knowledge proving service,
//! stated and proved apart from the I/O around them.
//!
//! Two services are covered. The job orchestrator runs a program, stages its
//! segments, and plans the tree of tasks that reduces their proofs to one
//! receipt ([`planner`], [`tasks`], [`feeder`], [`executor`], [`keys`]; what
//! holds of a whole plan is in [`tree`] and [`dag`]). The slasher follows
//! the lifecycle of locked requests and slashes the provers of those that
//! expired ([`orders`], [`slasher`]). Around them stand the values of the
//! market contract and the rules of its client ([`contracts`], [`client`],
//! [`cli`]).

pub mod bytes;
pub mod cli;
pub mod client;
pub mod contracts;
pub mod dag;
pub mod elf;
pub mod executor;
pub mod feeder;
pub mod ids;
pub mod keys;
pub mod orders;
pub mod planner;
pub mod slasher;
pub mod tasks;
pub mod text;
pub mod tree;
