//! The part of a DNS protocol library that decides: how an exchange over a
//! multiplexed connection drives its stream and its queue of requests, how a
//! connection that is still being made answers the requests that wait for
//! it, and how a socket is bound to a network interface.
pub mod bind_if;
pub mod connect;
pub mod error;
pub mod exchange;
