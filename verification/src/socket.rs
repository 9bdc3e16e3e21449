//! Socket addresses.

use vstd::prelude::*;

verus! {

/// An IP address, in its canonical text form, and a port.
#[derive(Debug, PartialEq, Eq)]
pub struct InetAddr {
    pub ip: String,
    pub port: u16,
}

impl View for InetAddr {
    type V = (Seq<char>, u16);

    open spec fn view(&self) -> (Seq<char>, u16) {
        (self.ip@, self.port)
    }
}

impl Clone for InetAddr {
    fn clone(&self) -> (copy: Self)
        ensures
            copy@ == self@,
            copy.ip@ == self.ip@,
            copy.port == self.port,
    {
        InetAddr { ip: self.ip.clone(), port: self.port }
    }
}

/// The address of one end of a connection.
#[derive(Debug, PartialEq, Eq)]
pub enum SocketAddr {
    Inet(InetAddr),
}

impl View for SocketAddr {
    type V = (Seq<char>, u16);

    open spec fn view(&self) -> (Seq<char>, u16) {
        match *self {
            SocketAddr::Inet(addr) => addr@,
        }
    }
}

impl Clone for SocketAddr {
    fn clone(&self) -> (copy: Self)
        ensures
            copy@ == self@,
            self matches SocketAddr::Inet(addr) ==> (copy matches SocketAddr::Inet(other)
                && other.ip@ == addr.ip@ && other.port == addr.port),
    {
        match self {
            SocketAddr::Inet(addr) => SocketAddr::Inet(addr.clone()),
        }
    }
}

} // verus!
