//! Job lifecycle for 0-1 knapsack optimisation requests.
//!
//! A client submits a problem and polls for the result; a worker takes the
//! task from a work channel, solves it, and stores the solution. This crate
//! holds the rules of that pipeline, each with a contract that is proved:
//!
//! - `dto`, `models`: the problem and task as shown to the client, the rows
//!   of the store, and the conversion between the two;
//! - `status`: the lifecycle of a task, submitted, started, completed;
//! - `store`: what a store holds, which changes it admits, what holds of it
//!   after any sequence of changes, and a store in memory;
//! - `service`: the submission of a problem and the query for a task;
//! - `queue`: what is published for a task, and how a payload is read;
//! - `worker`: the handling of one delivery, as a state machine;
//! - `solver`: the fitness of a candidate selection, and the solution that
//!   the outcome of a search gives;
//! - `db`, `http`, `clock`, `ids`: failures of the store and their status
//!   codes, time stamps, identifiers.
//!
//! Three things are taken on trust, each behind a function with a stated
//! contract: the parsing and writing of identifiers by the `uuid` crate
//! (`ids`), the system clock (`clock`), and the UTF-8 decoding of the
//! standard library (`queue`).

pub mod clock;
pub mod db;
pub mod dto;
pub mod http;
pub mod ids;
pub mod models;
pub mod queue;
pub mod service;
pub mod solver;
pub mod status;
pub mod store;
pub mod worker;
