use vstd::prelude::*;

pub mod client;
pub mod main_loop;
pub mod telnet;

verus! {

/// Identifies one connection for the lifetime of the server.
#[derive(Copy, Clone, Debug, PartialEq, Eq, Hash, Structural)]
pub struct ClientId(pub usize);

} // verus!
