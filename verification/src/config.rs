//! The configuration of the HTTP service.

use vstd::prelude::*;

verus! {

/// The keep-alive timeout of a fresh configuration, in milliseconds.
pub const DEFAULT_KEEP_ALIVE_MS: u64 = 5000;

/// The configuration of one HTTP service.
///
/// `HEADER_LIMIT` is the largest number of headers of a request,
/// `READ_BUF_LIMIT` the largest number of bytes read ahead of the decoder,
/// `WRITE_BUF_LIMIT` the number of unwritten bytes from which on no more of
/// a response body is asked for.
#[derive(Clone, Copy, Debug)]
pub struct HttpServiceConfig<
    const HEADER_LIMIT: usize,
    const READ_BUF_LIMIT: usize,
    const WRITE_BUF_LIMIT: usize,
> {
    /// Whether vectored writes are used where the transport offers them.
    pub vectored_write: bool,
    /// How long a connection may stay idle, in milliseconds.
    pub keep_alive_timeout: u64,
}

impl<
    const HEADER_LIMIT: usize,
    const READ_BUF_LIMIT: usize,
    const WRITE_BUF_LIMIT: usize,
> HttpServiceConfig<HEADER_LIMIT, READ_BUF_LIMIT, WRITE_BUF_LIMIT> {
    /// The default configuration: vectored writes, and a keep-alive timeout
    /// of five seconds.
    pub open spec fn new_spec() -> Self {
        HttpServiceConfig { vectored_write: true, keep_alive_timeout: DEFAULT_KEEP_ALIVE_MS }
    }

    /// The default configuration.
    pub fn new() -> (r: Self)
        ensures
            r == Self::new_spec(),
    {
        HttpServiceConfig { vectored_write: true, keep_alive_timeout: DEFAULT_KEEP_ALIVE_MS }
    }

    /// The same configuration without vectored writes.
    pub fn disable_vectored_write(self) -> (r: Self)
        ensures
            !r.vectored_write,
            r.keep_alive_timeout == self.keep_alive_timeout,
    {
        HttpServiceConfig { vectored_write: false, keep_alive_timeout: self.keep_alive_timeout }
    }

    /// The same configuration with another keep-alive timeout.
    pub fn keep_alive_timeout(self, millis: u64) -> (r: Self)
        ensures
            r.vectored_write == self.vectored_write,
            r.keep_alive_timeout == millis,
    {
        HttpServiceConfig { vectored_write: self.vectored_write, keep_alive_timeout: millis }
    }
}

} // verus!
