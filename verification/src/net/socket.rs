//! Socket bookkeeping: type, local binding and remote endpoint.

use vstd::prelude::*;

verus! {

/// Transport style of a socket.
#[derive(Debug, Clone, Copy, PartialEq, Eq, Structural)]
pub enum SocketType {
    /// Connection-oriented byte stream.
    Stream,
    /// Connectionless datagrams.
    Datagram,
}

/// One socket.
pub struct Socket {
    socket_type: SocketType,
    local_port: u16,
    remote_addr: [u8; 4],
    remote_port: u16,
}

impl Socket {
    /// The socket's transport style.
    pub closed spec fn spec_type(self) -> SocketType {
        self.socket_type
    }

    /// The locally bound port, zero when unbound.
    pub closed spec fn spec_local_port(self) -> u16 {
        self.local_port
    }

    /// The remote port, zero when unconnected.
    pub closed spec fn spec_remote_port(self) -> u16 {
        self.remote_port
    }

    /// Create an unbound, unconnected socket.
    pub fn new(socket_type: SocketType) -> (r: Self)
        ensures
            r.spec_type() == socket_type,
            r.spec_local_port() == 0u16,
            r.spec_remote_port() == 0u16,
    {
        Socket { socket_type, local_port: 0, remote_addr: [0; 4], remote_port: 0 }
    }

    /// Bind the socket to a local port.
    pub fn bind(&mut self, port: u16) -> (r: Result<(), &'static str>)
        ensures
            r is Ok,
            final(self).spec_local_port() == port,
            final(self).spec_type() == old(self).spec_type(),
            final(self).spec_remote_port() == old(self).spec_remote_port(),
    {
        self.local_port = port;
        Result::Ok(())
    }

    /// Record the remote endpoint to connect to.
    pub fn connect(&mut self, addr: [u8; 4], port: u16) -> (r: Result<(), &'static str>)
        ensures
            r is Ok,
            final(self).spec_remote_port() == port,
            final(self).spec_type() == old(self).spec_type(),
            final(self).spec_local_port() == old(self).spec_local_port(),
    {
        self.remote_addr = addr;
        self.remote_port = port;
        Result::Ok(())
    }

    /// Queue data for sending; the placeholder transport reports zero
    /// bytes taken.
    pub fn send(&self, data: &[u8]) -> (r: Result<usize, &'static str>)
        ensures
            r == Result::<usize, &'static str>::Ok(0usize),
    {
        Result::Ok(0)
    }

    /// Receive available data; the placeholder transport reports zero
    /// bytes and leaves the buffer alone.
    pub fn recv(&self, buffer: &mut [u8]) -> (r: Result<usize, &'static str>)
        ensures
            r == Result::<usize, &'static str>::Ok(0usize),
            final(buffer)@ == old(buffer)@,
    {
        Result::Ok(0)
    }
}

} // verus!
