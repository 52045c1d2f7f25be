//! Host-side supervisor logic for a sidecar backend process.
//!
//! The library holds the verifiable core of the supervisor: the handshake
//! line parser that discovers the backend's listening port, the port
//! registry, the stream-event state machine that tracks the child process,
//! and the path-resolution and image-decoding half of the clipboard bridge.
//! Process spawning, file access and the native clipboard call live in the
//! surrounding application, which hands this library plain values.

use vstd::prelude::*;

pub mod clipboard;
pub mod parser;
pub mod supervisor;

verus! {

use vstd::string::StringExecFns;

/// The greeting passthrough of the command surface.
pub fn greet(name: &str) -> (r: String)
    ensures
        r@ == "Hello, "@ + name@ + "! You've been greeted from Rust!"@,
{
    let mut r = String::from_str("Hello, ");
    r.append(name);
    r.append("! You've been greeted from Rust!");
    r
}

} // verus!
