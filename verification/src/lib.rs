//! Admission control, bounded handoff queue and response routing for a
//! single-worker request server.
//!
//! - [`request_unit`]: the unit of work.
//! - [`handler_state`]: the `Idle` / `Busy` / `Failed` lifecycle and its
//!   compare-and-set cell.
//! - [`handoff_queue`]: the bounded first-in first-out queue.
//! - [`registry`] and [`endpoint_modules`]: the closed table of endpoint
//!   modules and the modules themselves.
//! - [`worker`]: what the worker does with one request.
//! - [`admission`]: the admission controller and the worker's step function,
//!   with the laws that hold of every sequence of calls.
//! - [`router`]: the pending-connection map.
//! - [`wire`]: the request and response formats.
//! - [`server`]: the server context that ties the parts together.
//! - [`text`]: text helpers.
//!
//! The library decides and the caller acts: threads, sockets and the programs
//! that modules run stay with the caller, which shares one
//! [`server::ServerContext`] behind a lock.

pub mod admission;
pub mod endpoint_modules;
pub mod handler_state;
pub mod handoff_queue;
pub mod registry;
pub mod request_unit;
pub mod router;
pub mod server;
pub mod text;
pub mod wire;
pub mod worker;
