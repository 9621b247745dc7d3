//! Host diagnostics: the decision logic of a TCP connect-scan and of a
//! netcat-style byte relay, separated from the sockets that drive them.
use vstd::prelude::*;

pub mod error;
pub mod relay;
pub mod scan;

verus! {

} // verus!
