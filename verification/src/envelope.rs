//! The body of one netlink request, put together segment by segment.

use crate::bytes::put;
use vstd::prelude::*;

verus! {

/// A request in the making: its message type, its request flags, and the
/// bytes of its body. The transport puts the netlink header in front.
#[derive(Debug, Clone)]
pub struct Message {
    pub proto: u16,
    pub flags: i32,
    pub data: Vec<u8>,
}

impl Message {
    /// A request of type `proto` with the request flags `flags` and an empty body.
    pub fn new(proto: u16, flags: i32) -> (r: Message)
        ensures
            r.proto == proto,
            r.flags == flags,
            r.data@ == Seq::<u8>::empty(),
    {
        Message { proto, flags, data: Vec::new() }
    }

    /// Appends one serialized segment to the body.
    pub fn add(&mut self, segment: &[u8])
        ensures
            final(self).proto == old(self).proto,
            final(self).flags == old(self).flags,
            final(self).data@ == old(self).data@ + segment@,
    {
        put(&mut self.data, segment);
    }

    /// Bytes in the body so far.
    pub fn len(&self) -> (n: usize)
        ensures
            n == self.data@.len(),
    {
        self.data.len()
    }
}

} // verus!
