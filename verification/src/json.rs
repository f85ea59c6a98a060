//! The JSON flavour of the protocol: Slacker framing with JSON payloads
//! (content type 1).

use vstd::prelude::*;

verus! {

/// Marker for a connection that frames Slacker packets and encodes payloads
/// as JSON.
#[derive(Debug, Copy, Clone)]
pub struct JsonSlacker;

} // verus!
