//! I/O queue pairs of an NVMe controller, through which a remote child's
//! device is reached, and the options they are created with.
use vstd::prelude::*;

verus! {

/// The states of a queue pair.
#[derive(Debug, Clone, Copy, PartialEq, Eq, Structural)]
pub enum QPairState {
    Disconnected,
    Disconnecting,
    Connecting,
    Connected,
    Enabling,
    Enabled,
    Destroyed,
}

/// Whether aborted requests may be retried.
#[derive(Debug, Clone, Copy, PartialEq, Eq, Structural)]
pub enum Retry {
    Do,
    Dont,
}

impl From<Retry> for u32 {
    fn from(r: Retry) -> (v: u32) {
        match r {
            Retry::Do => 0,
            Retry::Dont => 1,
        }
    }
}

impl vstd::std_specs::convert::FromSpecImpl<Retry> for u32 {
    open spec fn obeys_from_spec() -> bool {
        true
    }

    open spec fn from_spec(r: Retry) -> u32 {
        match r {
            Retry::Do => 0,
            Retry::Dont => 1,
        }
    }
}

/// Options of a queue pair.
#[derive(Debug, Clone, Copy, PartialEq, Eq, Structural)]
pub struct QPairOpts {
    pub create_only: bool,
    pub io_queue_requests: u32,
    pub io_queue_size: u32,
    pub delay_cmd: bool,
}

/// Builds queue-pair options over a controller's defaults.
#[derive(Debug, Clone, Copy, PartialEq, Eq, Structural)]
pub struct QPairOptsBuilder {
    pub create_only: Option<bool>,
    pub io_queue_requests: Option<u32>,
    pub io_queue_size: Option<u32>,
    pub delay_cmd: Option<bool>,
}

impl QPairOptsBuilder {
    /// A builder that overrides nothing.
    pub fn new() -> (r: QPairOptsBuilder)
        ensures
            r.create_only.is_none() && r.io_queue_requests.is_none() && r.io_queue_size.is_none()
                && r.delay_cmd.is_none(),
    {
        QPairOptsBuilder { create_only: None, io_queue_requests: None, io_queue_size: None, delay_cmd: None }
    }

    pub fn create_only(self, create_only: bool) -> (r: QPairOptsBuilder)
        ensures
            r == (QPairOptsBuilder { create_only: Some(create_only), ..self }),
    {
        QPairOptsBuilder { create_only: Some(create_only), ..self }
    }

    /// The number of requests to allocate for the queue.
    pub fn with_io_queue_requests(self, io_queue_requests: u32) -> (r: QPairOptsBuilder)
        ensures
            r == (QPairOptsBuilder { io_queue_requests: Some(io_queue_requests), ..self }),
    {
        QPairOptsBuilder { io_queue_requests: Some(io_queue_requests), ..self }
    }

    /// The depth of the queue.
    pub fn with_io_queue_size(self, io_queue_size: u32) -> (r: QPairOptsBuilder)
        ensures
            r == (QPairOptsBuilder { io_queue_size: Some(io_queue_size), ..self }),
    {
        QPairOptsBuilder { io_queue_size: Some(io_queue_size), ..self }
    }

    /// The controller's defaults, with what was set here in their place.
    pub fn build(self, defaults: QPairOpts) -> (r: QPairOpts)
        ensures
            r.create_only == match self.create_only {
                Some(v) => v,
                None => defaults.create_only,
            },
            r.io_queue_requests == match self.io_queue_requests {
                Some(v) => v,
                None => defaults.io_queue_requests,
            },
            r.io_queue_size == match self.io_queue_size {
                Some(v) => v,
                None => defaults.io_queue_size,
            },
            r.delay_cmd == match self.delay_cmd {
                Some(v) => v,
                None => defaults.delay_cmd,
            },
    {
        let mut opts = defaults;
        if let Some(v) = self.create_only {
            opts.create_only = v;
        }
        if let Some(v) = self.io_queue_requests {
            opts.io_queue_requests = v;
        }
        if let Some(v) = self.io_queue_size {
            opts.io_queue_size = v;
        }
        if let Some(v) = self.delay_cmd {
            opts.delay_cmd = v;
        }
        opts
    }
}

/// An I/O queue pair.
#[derive(Debug, Clone, Copy, PartialEq, Eq, Structural)]
pub struct QPair {
    pub handle: u64,
    pub state: QPairState,
}

impl QPair {
    /// Disconnects the queue pair.
    pub fn disconnect(&mut self)
        ensures
            final(self).handle == old(self).handle,
            final(self).state == QPairState::Disconnected,
    {
        self.state = QPairState::Disconnected;
    }

    /// Frees the queue pair: zero on success.
    pub fn free(&self) -> (r: i32)
        ensures
            r == 0,
    {
        0
    }

    /// The "do not retry" flag with which the requests of this queue pair are
    /// aborted.
    pub fn abort(&self, retry: Retry) -> (dnr: u32)
        ensures
            dnr == if retry == Retry::Do {
                0u32
            } else {
                1u32
            },
    {
        u32::from(retry)
    }

    /// Whether the queue pair can take I/O.
    pub fn enabled(&self) -> (r: bool)
        ensures
            r == (self.state == QPairState::Enabled),
    {
        self.state == QPairState::Enabled
    }
}

} // verus!
