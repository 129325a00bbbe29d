//! The configuration knobs the engine consumes: worker pool size,
//! keep-alive policy, the default body size limit, and the per-request
//! deadline. Transport concerns (sockets, TLS) stay outside; the engine
//! only reads these values.

use vstd::prelude::*;

verus! {

/// The connection keep-alive policy.
#[derive(Clone, Copy, PartialEq, Eq, Structural, Debug)]
pub enum KeepAlive {
    /// Keep connections open for this many seconds.
    Seconds(u64),
    /// Leave the timeout to the operating system.
    OsDefault,
    /// Close every connection after one response.
    Disabled,
}

/// Engine-wide configuration, fixed at startup.
pub struct ServerConfig {
    pub workers: usize,
    pub keep_alive: KeepAlive,
    pub body_limit: usize,
    pub request_deadline_ms: Option<u64>,
}

/// A usable configuration always runs at least one worker.
pub open spec fn wf_config(c: ServerConfig) -> bool {
    c.workers >= 1
}

impl ServerConfig {
    /// Builds a well-formed configuration: a zero worker count is raised
    /// to one, everything else is taken as given.
    pub fn new(
        workers: usize,
        keep_alive: KeepAlive,
        body_limit: usize,
        request_deadline_ms: Option<u64>,
    ) -> (r: ServerConfig)
        ensures
            wf_config(r),
            r.workers == if workers >= 1 {
                workers as int
            } else {
                1int
            },
            r.keep_alive == keep_alive,
            r.body_limit == body_limit,
            r.request_deadline_ms == request_deadline_ms,
    {
        let workers = if workers >= 1 {
            workers
        } else {
            1
        };
        ServerConfig { workers, keep_alive, body_limit, request_deadline_ms }
    }
}

} // verus!
