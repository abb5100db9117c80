//! Verified core of a small chat service and a replicated identity service.
use vstd::prelude::*;

pub mod chat_client;
pub mod chat_server;
pub mod chat_types;
pub mod keyed;
pub mod naming;
pub mod user;
pub mod database;
pub mod password;
pub mod rpc_error;
pub mod replication;
pub mod service;
pub mod text;

