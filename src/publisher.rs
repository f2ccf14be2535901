//! Publishing messages to brokers.
use vstd::prelude::*;

use crate::message::Message;

verus! {

/// Delivers messages to brokers on behalf of a producer group.
pub struct Publisher {
    group: String,
}

impl Publisher {
    /// The producer group.
    pub closed spec fn group_view(&self) -> Seq<char> {
        self.group@
    }

    pub fn new(group: &str) -> (r: Publisher)
        ensures
            r.group_view() == group@,
    {
        Publisher { group: group.to_owned() }
    }

    /// The producer group.
    pub fn group(&self) -> (r: &str)
        ensures
            r@ == self.group_view(),
    {
        self.group.as_str()
    }

    /// Publishing is not performed yet: the publisher is left unchanged.
    pub fn publish(&mut self, message: &Message)
        ensures
            final(self).group_view() == old(self).group_view(),
    {
    }
}

} // verus!
