//! The query configuration and its state, and the library's error kinds.
use vstd::prelude::*;

verus! {

/// The connect timeout, in milliseconds, when none is given.
pub const DEFAULT_TIMEOUT_MS: u64 = 5000;

/// The largest JSON payload, in bytes, accepted when no limit is given: 10 MiB.
pub const DEFAULT_MAX_SIZE: u32 = 10485760;

/// Every way a query or a decode can fail.
#[derive(Debug, Clone, Copy, PartialEq, Eq)]
pub enum StatusError {
    /// `host:port` resolved to no socket address.
    AddressResolutionFailed,
    /// The TCP connection was refused or timed out.
    ConnectFailed,
    /// A write or read on the connection failed.
    IoFailed,
    /// A VarInt ran over five bytes.
    ProtocolMalformed,
    /// The declared JSON payload is longer than the configured maximum.
    ResponseTooLarge,
    /// A decode was asked for before any successful query.
    NotYetQueried,
    /// The stored payload is not UTF-8.
    InvalidUtf8,
    /// The payload is not JSON, or not a status object.
    JsonMalformed,
}

/// Whether a query has succeeded yet, and what it brought back.
#[derive(Debug)]
pub enum QueryState {
    NotQueried,
    Queried(Vec<u8>),
}

/// One server to ask for its status: where it is, the limits of the query,
/// and the raw JSON payload once a query has succeeded.
#[derive(Debug)]
pub struct ServerStatus<'a> {
    pub host: &'a str,
    pub port: u16,
    pub status: QueryState,
    pub timeout_ms: u64,
    pub max_size: u32,
}

impl<'a> ServerStatus<'a> {
    /// A stored payload never exceeds the configured maximum.
    pub open spec fn wf(&self) -> bool {
        self.status matches QueryState::Queried(raw) ==> raw@.len() <= self.max_size
    }

    /// A server that has not been queried yet; the timeout and the maximum
    /// payload size fall back to 5000 ms and 10 MiB.
    pub fn new(host: &'a str, port: u16, timeout_ms: Option<u64>, max_size: Option<u32>) -> (r:
        Self)
        ensures
            r.host == host,
            r.port == port,
            r.status is NotQueried,
            r.timeout_ms == (match timeout_ms {
                Some(t) => t,
                None => DEFAULT_TIMEOUT_MS,
            }),
            r.max_size == (match max_size {
                Some(m) => m,
                None => DEFAULT_MAX_SIZE,
            }),
            r.wf(),
    {
        let timeout_ms = match timeout_ms {
            Some(t) => t,
            None => DEFAULT_TIMEOUT_MS,
        };
        let max_size = match max_size {
            Some(m) => m,
            None => DEFAULT_MAX_SIZE,
        };
        ServerStatus { host, port, status: QueryState::NotQueried, timeout_ms, max_size }
    }

    /// Stores the payload that a query read, once its length has been checked
    /// against the maximum; an oversized payload leaves the state as it was.
    pub fn store_response(&mut self, payload: Vec<u8>) -> (r: Result<(), StatusError>)
        requires
            old(self).wf(),
        ensures
            final(self).wf(),
            final(self).host == old(self).host,
            final(self).port == old(self).port,
            final(self).timeout_ms == old(self).timeout_ms,
            final(self).max_size == old(self).max_size,
            payload@.len() <= old(self).max_size ==> {
                &&& r is Ok
                &&& final(self).status == QueryState::Queried(payload)
            },
            payload@.len() > old(self).max_size ==> {
                &&& r == Err::<(), StatusError>(StatusError::ResponseTooLarge)
                &&& final(self).status == old(self).status
            },
    {
        if payload.len() as u64 > self.max_size as u64 {
            return Err(StatusError::ResponseTooLarge);
        }
        self.status = QueryState::Queried(payload);
        Ok(())
    }
}

} // verus!
