//! How an endpoint is spoken to.
use vstd::prelude::*;

verus! {

/// The protocol by which requests are sent to an endpoint.
#[derive(Clone, Copy, Debug, PartialEq, Eq, Structural)]
pub enum Protocol {
    Http1,
    Http2,
}

} // verus!
