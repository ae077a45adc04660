//! The in-flight message: two routes and a payload.

use vstd::prelude::*;
use crate::route::{Route, RouterAddress};

verus! {

/// The abstract value of a [`Message`]: both routes as hop sequences and the
/// payload as a byte sequence.
pub struct MessageView {
    pub onward: Seq<RouterAddress>,
    pub ret: Seq<RouterAddress>,
    pub payload: Seq<u8>,
}

/// A message in flight through the transport layer.  The onward route holds
/// the hops still to traverse (head = next hop); the return route holds the
/// hops already traversed, most recent first.
#[derive(Debug)]
pub struct Message {
    pub onward_route: Route,
    pub return_route: Route,
    pub payload: Vec<u8>,
}

impl View for Message {
    type V = MessageView;

    open spec fn view(&self) -> MessageView {
        MessageView { onward: self.onward_route@, ret: self.return_route@, payload: self.payload@ }
    }
}

impl MessageView {
    /// Every hop of both routes is well formed.
    pub open spec fn hops_wf(&self) -> bool {
        &&& forall|i: int| 0 <= i < self.onward.len() ==> (#[trigger] self.onward[i]).wf()
        &&& forall|i: int| 0 <= i < self.ret.len() ==> (#[trigger] self.ret[i]).wf()
    }

    /// The message fits the frame format: at most 255 hops per route and a
    /// payload short enough for a 32-bit length field.
    pub open spec fn bounded(&self) -> bool {
        &&& self.onward.len() <= 255
        &&& self.ret.len() <= 255
        &&& self.payload.len() <= u32::MAX
    }

    /// Well formed and encodable.
    pub open spec fn wf(&self) -> bool {
        self.hops_wf() && self.bounded()
    }
}

impl Message {
    /// Builds a message from its parts.
    pub fn new(onward_route: Route, return_route: Route, payload: Vec<u8>) -> (r: Message)
        ensures
            r@.onward == onward_route@,
            r@.ret == return_route@,
            r@.payload == payload@,
    {
        Message { onward_route, return_route, payload }
    }
}

} // verus!
