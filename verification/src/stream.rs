//! The union of the two kinds of connection.

use crate::key::AddrView;
use crate::key::UnifiedL4Addr;
use crate::pool::TransportConnMeta;
use vstd::prelude::*;

verus! {

/// A connection over TCP or to a Unix socket. What is done with a connection
/// is done with the variant that it holds; a TCP connection never stands in
/// for a Unix one, nor the other way round.
#[derive(Debug)]
pub enum UnifiedL4Stream<T, U> {
    /// A TCP connection.
    Tcp(T),
    /// A connection to a Unix socket.
    Unix(U),
}

impl<T, U> UnifiedL4Stream<T, U> {
    /// Whether a connection of this kind can lead to `key`.
    pub open spec fn fits(&self, key: AddrView) -> bool {
        (self is Tcp) == (key is Tcp)
    }

    /// Whether this is a TCP connection.
    pub fn is_tcp(&self) -> (tcp: bool)
        ensures
            tcp == (self is Tcp),
    {
        match self {
            UnifiedL4Stream::Tcp(_) => true,
            UnifiedL4Stream::Unix(_) => false,
        }
    }

    /// Whether a connection of this kind can lead to `key`.
    pub fn leads_to(&self, key: &UnifiedL4Addr) -> (yes: bool)
        ensures
            yes == self.fits(key@),
    {
        self.is_tcp() == key.is_tcp()
    }

    /// What is noted of the connection: nothing yet, for either kind.
    pub fn get_conn_metadata(&self) -> (meta: TransportConnMeta)
        ensures
            meta == (TransportConnMeta {  }),
    {
        TransportConnMeta {  }
    }
}

} // verus!
