//! A small HTTP service, verified: a store of resources with identifiers handed out
//! in order, a credential guard, a session cookie, a counter fairing that counts
//! GET and POST requests, and the dispatcher that runs a request through them.

use vstd::prelude::*;

pub mod api_key;
pub mod client;
pub mod counter;
pub mod http;
pub mod service;
pub mod store;
pub mod text;
