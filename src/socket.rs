//! The socket host calls: address-family and socket-type mapping, and the
//! per-context table of open sockets.

use vstd::prelude::*;
use crate::error::BlocklessSocketErrorKind;
use crate::handle_table::HandleTable;

verus! {

/// Address family a guest asks for.
#[derive(Debug, Clone, Copy, PartialEq, Eq, Structural)]
pub enum AddressFamily {
    Unspec,
    Inet4,
    Inet6,
}

/// Socket type a guest asks for.
#[derive(Debug, Clone, Copy, PartialEq, Eq, Structural)]
pub enum SocketType {
    Any,
    Datagram,
    Stream,
}

/// The host's protocol family.
#[derive(Debug, Clone, Copy, PartialEq, Eq, Structural)]
pub enum Domain {
    Ipv4,
    Ipv6,
}

/// The host's socket type.
#[derive(Debug, Clone, Copy, PartialEq, Eq, Structural)]
pub enum Type {
    Dgram,
    Stream,
}

/// `Inet6` is IPv6; `Inet4` and an unspecified family are IPv4.
pub fn domain_of(family: AddressFamily) -> (r: Domain)
    ensures
        r == (if family == AddressFamily::Inet6 {
            Domain::Ipv6
        } else {
            Domain::Ipv4
        }),
{
    match family {
        AddressFamily::Inet4 | AddressFamily::Unspec => Domain::Ipv4,
        AddressFamily::Inet6 => Domain::Ipv6,
    }
}

/// `Stream` is a stream; `Datagram` and an unspecified type are datagrams.
pub fn type_of(socket_type: SocketType) -> (r: Type)
    ensures
        r == (if socket_type == SocketType::Stream {
            Type::Stream
        } else {
            Type::Dgram
        }),
{
    match socket_type {
        SocketType::Datagram | SocketType::Any => Type::Dgram,
        SocketType::Stream => Type::Stream,
    }
}

/// The open sockets of one guest execution context.
pub struct SocketContext<S> {
    pub sockets: HandleTable<S>,
}

impl<S> SocketContext<S> {
    pub fn new() -> (r: Self)
        ensures
            r.sockets.wf(),
            r.sockets@ == Map::<u32, S>::empty(),
            r.sockets.next_handle() == 1,
    {
        SocketContext { sockets: HandleTable::new() }
    }

    /// Records the outcome of a bind or connect: the socket gets a fresh
    /// handle; a failed attempt is `ConnectRefused`, and a table with no
    /// handle left is `ParameterError`.
    pub fn register(&mut self, opened: Option<S>) -> (r: Result<u32, BlocklessSocketErrorKind>)
        requires
            old(self).sockets.wf(),
        ensures
            final(self).sockets.wf(),
            match opened {
                None => r == Err::<u32, BlocklessSocketErrorKind>(BlocklessSocketErrorKind::ConnectRefused)
                    && final(self).sockets@ == old(self).sockets@,
                Some(s) => match r {
                    Ok(h) => !old(self).sockets@.contains_key(h) && final(self).sockets@ == old(
                        self,
                    ).sockets@.insert(h, s),
                    Err(e) => e == BlocklessSocketErrorKind::ParameterError && final(self).sockets@
                        == old(self).sockets@ && old(self).sockets.next_handle() == u32::MAX,
                },
            },
    {
        match opened {
            None => Err(BlocklessSocketErrorKind::ConnectRefused),
            Some(s) => match self.sockets.insert(s) {
                Some(h) => Ok(h),
                None => Err(BlocklessSocketErrorKind::ParameterError),
            },
        }
    }

    /// Closes the socket under `handle`, handing it back;
    /// `ParameterError` when none is open there.
    pub fn close(&mut self, handle: u32) -> (r: Result<S, BlocklessSocketErrorKind>)
        requires
            old(self).sockets.wf(),
        ensures
            final(self).sockets.wf(),
            final(self).sockets@ == old(self).sockets@.remove(handle),
            match r {
                Ok(s) => old(self).sockets@.contains_key(handle) && s == old(self).sockets@[handle],
                Err(e) => !old(self).sockets@.contains_key(handle) && e
                    == BlocklessSocketErrorKind::ParameterError,
            },
    {
        match self.sockets.remove(handle) {
            Some(s) => Ok(s),
            None => Err(BlocklessSocketErrorKind::ParameterError),
        }
    }
}

} // verus!
