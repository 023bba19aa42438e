//! A minimal verified user-agent core: locator parsing, a per-authority
//! connection cache, HTTP-style request/response handling with redirect
//! following, and a streaming markup-to-text renderer.
//!
//! All I/O (sockets, TLS, files) lives outside this crate; the library holds
//! the data model and the decision logic, each function with a contract.

use vstd::prelude::*;

pub mod cache;
pub mod chain;
pub mod errors;
pub mod protocol;
pub mod render;
pub mod text;
pub mod url;

verus! {

} // verus!
