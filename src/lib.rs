//! Client-side transport for a publish/subscribe messaging broker: the
//! length-delimited frame codec, the receive buffer that carves frames out of
//! a byte stream, and the per-topic route table.
use vstd::prelude::*;

pub mod codec;
pub mod error;
pub mod ext_fields;
pub mod frame;
pub mod message;
pub mod protocol;
pub mod publisher;
pub mod route;
pub mod stream;

verus! {

} // verus!
