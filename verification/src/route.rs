//! Endpoint addresses and ordered hop sequences.
//!
//! An [`Address`] identifies one endpoint of one transport kind; a
//! [`RouterAddress`] is an address annotated with its [`AddressType`] tag, the
//! unit stored in routes.  A [`Route`] is an ordered sequence of hops: a
//! message carries an onward route (remaining hops, head first) and a return
//! route (hops already traversed, most recent first).

use vstd::prelude::*;

verus! {

/// The transport kind of a hop, used by a relay to decide whether the next
/// hop is reachable over the network.
#[derive(Clone, Copy, Debug, PartialEq, Eq, Structural)]
pub enum AddressType {
    Local,
    Tcp,
    Udp,
}

/// An IPv4 endpoint: host as a 32-bit value, plus a port.
#[derive(Clone, Copy, Debug, PartialEq, Eq, Structural)]
pub struct HostPort {
    pub host: u32,
    pub port: u16,
}

/// A typed endpoint identifier.  `Local` addresses name workers inside the
/// owning router; `Tcp` and `Udp` addresses name network peers.
#[derive(Clone, Copy, Debug, PartialEq, Eq, Structural)]
pub enum Address {
    Local(u32),
    Tcp(HostPort),
    Udp(HostPort),
}

impl Address {
    /// The transport kind this address belongs to.
    pub open spec fn spec_kind(&self) -> AddressType {
        match *self {
            Address::Local(_) => AddressType::Local,
            Address::Tcp(_) => AddressType::Tcp,
            Address::Udp(_) => AddressType::Udp,
        }
    }

    /// Executable twin of [`Address::spec_kind`].
    pub fn kind(&self) -> (t: AddressType)
        ensures
            t == self.spec_kind(),
    {
        match *self {
            Address::Local(_) => AddressType::Local,
            Address::Tcp(_) => AddressType::Tcp,
            Address::Udp(_) => AddressType::Udp,
        }
    }
}

/// An [`Address`] together with its [`AddressType`] tag: one hop of a route.
#[derive(Clone, Copy, Debug, PartialEq, Eq, Structural)]
pub struct RouterAddress {
    pub a_type: AddressType,
    pub address: Address,
}

impl RouterAddress {
    /// A hop is well formed when its tag agrees with its address kind.
    pub open spec fn wf(&self) -> bool {
        self.a_type == self.address.spec_kind()
    }

    /// Builds the hop for an address, tagging it with the address's own kind.
    pub fn from_address(address: Address) -> (r: RouterAddress)
        ensures
            r.address == address,
            r.wf(),
    {
        RouterAddress { a_type: address.kind(), address }
    }
}

/// An ordered sequence of hops.
#[derive(Debug)]
pub struct Route {
    pub addresses: Vec<RouterAddress>,
}

impl View for Route {
    type V = Seq<RouterAddress>;

    open spec fn view(&self) -> Seq<RouterAddress> {
        self.addresses@
    }
}

impl Route {
    /// Every hop of the route is well formed.
    pub open spec fn wf(&self) -> bool {
        forall|i: int| 0 <= i < self@.len() ==> (#[trigger] self@[i]).wf()
    }

    /// An empty route.
    pub fn new() -> (r: Route)
        ensures
            r@ == Seq::<RouterAddress>::empty(),
    {
        Route { addresses: Vec::new() }
    }
}

} // verus!
