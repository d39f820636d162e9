//! A Kubernetes dynamic admission controller's core: it reads a Pod creation
//! review, determines which CPU architectures every container image supports
//! by speaking the registry's manifest and token protocols, and — when all
//! containers support a configured target architecture — queues a JSON Patch
//! adding a matching scheduling toleration. The network and HTTP plumbing
//! live outside; every decision, parser and encoder lives here, verified.

pub mod cache;
pub mod image;
pub mod json;
pub mod manifest;
pub mod metrics;
pub mod models;
pub mod mutation;
pub mod strutil;
pub mod token;
