//! The keepalive marker passed between transport actors.

use vstd::prelude::*;

verus! {

/// A keepalive ping; it carries nothing.
#[derive(Debug, Clone, Copy, PartialEq, Eq, Structural)]
pub struct Ping;

} // verus!
