//! Decoding of the rows-result frame body of the Cassandra native protocol:
//! metadata flags, column types and column specs, the metadata block, and
//! the row cells. Every decoder works on an already-received buffer and a
//! position in it, and is proved to agree with a mathematical description of
//! the wire format.
use vstd::prelude::*;

pub mod frame_response_rows;
pub mod types;

verus! {

} // verus!
