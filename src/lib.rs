//! Auditing hosts of a monitoring inventory by deployment environment: a
//! client for the inventory's search and tag endpoints, and the rules that
//! infer each host's environment from its name and group hosts by it.
pub mod environment;
pub mod report;
pub mod json;
pub mod datadog;
