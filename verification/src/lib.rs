//! A typed RPC-over-HTTP runtime.
//!
//! A fixed set of operations, each bound to a method and a path template,
//! is called through one abstraction: a [`service::Service`] that takes a
//! request and returns a response. A client that goes over the network and a
//! router in the same process both offer it, so a call is marshalled the
//! same way whether or not a socket lies in between.
//!
//! The parts, leaves first:
//!
//! - [`body`], [`message`]: requests, responses, headers and bodies as plain
//!   values.
//! - [`percent`], [`path`], [`query`], [`params`]: paths, path templates,
//!   queries and their percent-encoding.
//! - [`router`]: which operation a method and a path belong to.
//! - [`json`], [`wire`], [`null_variant`]: typed values, the documents that
//!   stand for them, and their JSON text.
//! - [`error`]: the failures of both sides.
//! - [`service`], [`client`], [`marshal`]: the client side of a call.
//! - [`responder`], [`server`]: the server side of a call.
//! - [`pet_store`], [`client_raw`], [`server_raw`], [`petstore_logic`],
//!   [`pet_store_router`], [`in_process`]: the pet store service.
//! - [`example`], [`example_client`], [`example_server`], [`main_service`],
//!   [`example_in_process`]: the example service.
//! - [`schema_sources`]: what a build needs to know about schema sources.
//! - [`operation_future`]: the shape of an operation on an async runtime.

pub mod body;
pub mod client;
pub mod client_raw;
pub mod error;
pub mod example;
pub mod example_client;
pub mod example_in_process;
pub mod example_server;
pub mod in_process;
pub mod json;
pub mod main_service;
pub mod marshal;
pub mod message;
pub mod null_variant;
pub mod operation_future;
pub mod params;
pub mod path;
pub mod percent;
pub mod pet_store;
pub mod pet_store_router;
pub mod petstore_logic;
pub mod query;
pub mod responder;
pub mod router;
pub mod schema_sources;
pub mod server;
pub mod server_raw;
pub mod service;
pub mod text;
pub mod wire;
