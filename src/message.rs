//! Messages as publishers hand them to the client.
use std::collections::HashMap;
use vstd::prelude::*;

verus! {

/// A message to publish.
pub struct Message {
    /// The topic that the message is delivered to and subscribed from.
    pub topic: String,
    pub tag: String,
    pub keys: Vec<String>,
    /// User defined key-value attributes; brokers index them for queries.
    pub attributes: HashMap<String, String>,
    /// System properties that change how the message is delivered, such as a
    /// time before which subscribers do not see it.
    pub properties: HashMap<String, String>,
    pub body: Vec<u8>,
}

} // verus!
