//! Verified core of the JJS invoker tooling: request descriptions for the
//! JJS HTTP API, the cgroup setup and joining plans of the minion sandbox, and
//! the request/response processing of the invoker test runner.

pub mod json;
pub mod models;
pub mod text;
pub mod outputs;
pub mod invocation;
pub mod runner;
pub mod cgroup;
pub mod api;
