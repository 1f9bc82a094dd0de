//! Checking that a websocket connection is the one a ticket was issued to.
use vstd::prelude::*;
use crate::ids::Uuid;
use crate::text::string_from;
use super::{Connection, ConnectionMap};

verus! {

broadcast use vstd::std_specs::hash::group_hash_axioms;

/// Checks tickets of type `T` for connections.
pub trait AuthorizesTicket<T> {
    /// The connection of `token`, where `ticket` is its ticket.
    fn authorize_ticket(&self, token: usize, ticket: T) -> Result<&Connection, String>;
}

/// Checks that a ticket is the one of the connection it comes on.
pub struct DumbTicketStamper {
    pub connections: ConnectionMap,
}

/// What checking `ticket` for the connection of `token` among `conns` gives:
/// the connection, where the ticket is its own.
pub open spec fn authorization(conns: Map<usize, Connection>, token: usize, ticket: Uuid) -> Result<
    Connection,
    Seq<char>,
> {
    if !conns.contains_key(token) {
        Err("authorization failed: no connection for token"@)
    } else if conns[token].ticket == ticket {
        Ok(conns[token])
    } else {
        Err("authorization failed: ticket mismatch"@)
    }
}

impl DumbTicketStamper {
    /// A checker over the connections `conn_map`.
    pub fn new(conn_map: ConnectionMap) -> (r: DumbTicketStamper)
        ensures
            r.connections@ == conn_map@,
    {
        DumbTicketStamper { connections: conn_map }
    }
}

impl AuthorizesTicket<Uuid> for DumbTicketStamper {
    fn authorize_ticket(&self, token: usize, ticket: Uuid) -> (r: Result<&Connection, String>)
        ensures
            match authorization(self.connections@, token, ticket) {
                Ok(c) => r matches Ok(c2) && *c2 == c,
                Err(e) => r matches Err(e2) && e2@ == e,
            },
    {
        match self.connections.get(&token) {
            None => Err(string_from("authorization failed: no connection for token")),
            Some(conn) => {
                if conn.ticket == ticket {
                    Ok(conn)
                } else {
                    Err(string_from("authorization failed: ticket mismatch"))
                }
            },
        }
    }
}

} // verus!
