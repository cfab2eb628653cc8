//! Scheduling core of a request-queueing gateway in front of a rate-limited
//! game API: rate budgets, credential cache, wire forms, the two-phase remote
//! exchange and the worker queues that drain jobs without overrunning a budget.

pub mod category;
pub mod dispatch;
pub mod encode;
pub mod envelope;
pub mod error;
pub mod exchange;
pub mod form;
pub mod guarantees;
pub mod identifier;
pub mod nations;
pub mod ratelimiter;
pub mod response;
pub mod rmbpost;
pub mod store;
pub mod telegram;
pub mod text;
pub mod worker;
