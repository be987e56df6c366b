//! Verified core of the Asenix research-coordination hub: the domain model of
//! atoms, edges and lifecycles, the acceptance pipeline, MCP session and
//! protocol handling, the knowledge-graph cache, the command-line grammar of
//! the `asenix` tool and the small pure helpers around them.
#![allow(unused_imports)]

pub mod text;
pub mod error;
pub mod atom;
pub mod graph;
pub mod cli;
pub mod session;
pub mod json;
pub mod crypto;
pub mod artifacts;
pub mod acceptance;
pub mod mcp;
pub mod api;
pub mod domain;
pub mod display;
pub mod paths;
pub mod metrics;
pub mod rpc;
pub mod publish;
pub mod tools;
pub mod launch;
pub mod stream;
pub mod packs;
pub mod bounty;
pub mod commands;
pub mod rspc;
pub mod hub_client;
pub mod projects;
pub mod sql;
pub mod sse;
pub mod review;
