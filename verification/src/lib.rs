//! The core of a framework for integration tests that run against
//! containers: every test gets a private network with services in it,
//! exercises them, and leaves nothing behind.
//!
//! The core performs no I/O. Each of its parts is told what happened (a
//! container was started, an availability check answered, the clock reads so
//! much) and answers with the next thing to do; its caller owns the container
//! runtime, the clock and the threads.
//!
//! - [`address`]: subnets, and the allocation of addresses inside one.
//! - [`pool`]: the range of addresses from which the subnets of a suite are
//!   cut.
//! - [`service`]: what a test declares of a service, the core's handle for
//!   it, and its life cycle.
//! - [`readiness`]: when to ask a service whether it is available, and when
//!   to give up.
//! - [`network`]: the network of one test and the services in it.
//! - [`launch`]: the way of one service from the request to add it until it
//!   is ready.
//! - [`executor`]: the way of one test from its setup to its teardown.
//! - [`outcome`]: how a test ended, and how failures become outcomes.
//! - [`testsuite`]: the suite that a user registers, and the plan of its run.
//! - [`filter`]: the selection of tests by name.
//! - [`runner`]: which test starts next, and the report of the run.
//! - [`datastore`]: a key-value store as a service under test.
//! - [`text`]: numbers and addresses as text, and the order of names.

pub mod address;
pub mod datastore;
pub mod executor;
pub mod filter;
pub mod launch;
pub mod network;
pub mod outcome;
pub mod pool;
pub mod readiness;
pub mod runner;
pub mod service;
pub mod testsuite;
pub mod text;
