//! Hands out single I/O ports, each at most once.
use vstd::prelude::*;

verus! {

/// A set of port numbers, kept in a `hashbrown::HashSet`.
#[verifier::external_body]
pub struct PortSet {
    ports: hashbrown::HashSet<u16>,
}

/// The port numbers a `PortSet` holds.
pub uninterp spec fn port_set_contents(s: PortSet) -> Set<u16>;

/// An empty set, made by `hashbrown::HashSet::new`.
#[verifier::external_body]
fn port_set_new() -> (r: PortSet)
    ensures
        port_set_contents(r) == Set::<u16>::empty(),
{
    PortSet { ports: hashbrown::HashSet::new() }
}

/// Whether `port` is in the set, by `hashbrown::HashSet::contains`.
#[verifier::external_body]
fn port_set_contains(s: &PortSet, port: u16) -> (r: bool)
    ensures
        r == port_set_contents(*s).contains(port),
{
    s.ports.contains(&port)
}

/// Adds `port` to the set with `hashbrown::HashSet::insert`, which answers whether it
/// was not there before.
#[verifier::external_body]
fn port_set_insert(s: &mut PortSet, port: u16) -> (r: bool)
    ensures
        port_set_contents(*final(s)) == port_set_contents(*old(s)).insert(port),
        r == !port_set_contents(*old(s)).contains(port),
{
    s.ports.insert(port)
}

/// Keeps track of the ports handed out.
pub struct PortManager {
    allocated_ports: PortSet,
}

/// A single I/O port.
pub struct Port {
    addr: u16,
}

impl Port {
    /// The port number.
    pub closed spec fn spec_addr(&self) -> u16 {
        self.addr
    }

    /// The port number, for the instructions that read and write it.
    pub fn addr(&self) -> (r: u16)
        ensures
            r == self.spec_addr(),
    {
        self.addr
    }
}

impl PortManager {
    /// The ports handed out so far.
    pub closed spec fn allocated(&self) -> Set<u16> {
        port_set_contents(self.allocated_ports)
    }

    /// No port handed out yet.
    pub fn new() -> (r: PortManager)
        ensures
            r.allocated() == Set::<u16>::empty(),
    {
        PortManager { allocated_ports: port_set_new() }
    }

    /// The port `addr`, unless it was handed out before.
    pub fn request_port(&mut self, addr: u16) -> (r: Option<Port>)
        ensures
            old(self).allocated().contains(addr) ==> r is None && final(self).allocated()
                == old(self).allocated(),
            !old(self).allocated().contains(addr) ==> (r matches Some(p) && p.spec_addr() == addr
                && final(self).allocated() == old(self).allocated().insert(addr)),
    {
        if port_set_contains(&self.allocated_ports, addr) {
            return None;
        }
        port_set_insert(&mut self.allocated_ports, addr);
        Some(Port { addr })
    }
}

} // verus!
