//! Configuration for circuit requests: timeouts, retries, and expiry.
//! Durations are held in milliseconds.

use vstd::prelude::*;

verus! {

/// Timing and retry rules for circuit requests.
#[derive(Clone, Copy, PartialEq, Eq, Structural, Debug)]
pub struct RequestTiming {
    /// Stop retrying new circuits for a request after this long.
    pub request_timeout_ms: u64,
    /// Stop retrying new circuits for a request after this many attempts.
    pub request_max_retries: u32,
    /// Wait at least this long before taking a suitable circuit launched
    /// by some other request.
    pub request_loyalty_ms: u64,
}

impl Default for RequestTiming {
    /// The default timing: a minute of retries, at most 32 attempts, and
    /// 50 milliseconds of loyalty.
    fn default() -> (r: Self)
        ensures
            r.request_timeout_ms == 60000,
            r.request_max_retries == 32,
            r.request_loyalty_ms == 50,
    {
        RequestTiming {
            request_timeout_ms: 60000,
            request_max_retries: 32,
            request_loyalty_ms: 50,
        }
    }
}

/// A builder for [`RequestTiming`]: unset fields take their defaults.
#[derive(Clone, Copy, PartialEq, Eq, Structural, Debug, Default)]
pub struct RequestTimingBuilder {
    /// The timeout to use, if set.
    pub request_timeout_ms: Option<u64>,
    /// The retry bound to use, if set.
    pub request_max_retries: Option<u32>,
    /// The loyalty interval to use, if set.
    pub request_loyalty_ms: Option<u64>,
}

impl RequestTimingBuilder {
    /// Set the request timeout.
    pub fn request_timeout_ms(&mut self, v: u64)
        ensures
            final(self).request_timeout_ms == Some(v),
            final(self).request_max_retries == old(self).request_max_retries,
            final(self).request_loyalty_ms == old(self).request_loyalty_ms,
    {
        self.request_timeout_ms = Some(v);
    }

    /// Set the retry bound.
    pub fn request_max_retries(&mut self, v: u32)
        ensures
            final(self).request_max_retries == Some(v),
            final(self).request_timeout_ms == old(self).request_timeout_ms,
            final(self).request_loyalty_ms == old(self).request_loyalty_ms,
    {
        self.request_max_retries = Some(v);
    }

    /// Set the loyalty interval.
    pub fn request_loyalty_ms(&mut self, v: u64)
        ensures
            final(self).request_loyalty_ms == Some(v),
            final(self).request_timeout_ms == old(self).request_timeout_ms,
            final(self).request_max_retries == old(self).request_max_retries,
    {
        self.request_loyalty_ms = Some(v);
    }

    /// Build the timing, filling unset fields with their defaults.
    pub fn build(&self) -> (r: RequestTiming)
        ensures
            r.request_timeout_ms == (match self.request_timeout_ms {
                Some(v) => v,
                None => 60000,
            }),
            r.request_max_retries == (match self.request_max_retries {
                Some(v) => v,
                None => 32,
            }),
            r.request_loyalty_ms == (match self.request_loyalty_ms {
                Some(v) => v,
                None => 50,
            }),
    {
        RequestTiming {
            request_timeout_ms: match self.request_timeout_ms {
                Some(v) => v,
                None => 60000,
            },
            request_max_retries: match self.request_max_retries {
                Some(v) => v,
                None => 32,
            },
            request_loyalty_ms: match self.request_loyalty_ms {
                Some(v) => v,
                None => 50,
            },
        }
    }
}

/// Timing rules for circuits themselves.
#[derive(Clone, Copy, PartialEq, Eq, Structural, Debug)]
pub struct CircuitTiming {
    /// How long after first use a circuit is still given out for new
    /// requests.
    pub max_dirtiness_ms: u64,
}

impl Default for CircuitTiming {
    /// The default: circuits are given out for ten minutes after first
    /// use.
    fn default() -> (r: Self)
        ensures
            r.max_dirtiness_ms == 600000,
    {
        CircuitTiming { max_dirtiness_ms: 600000 }
    }
}

/// A builder for [`CircuitTiming`]: unset fields take their defaults.
#[derive(Clone, Copy, PartialEq, Eq, Structural, Debug, Default)]
pub struct CircuitTimingBuilder {
    /// The dirtiness bound to use, if set.
    pub max_dirtiness_ms: Option<u64>,
}

impl CircuitTimingBuilder {
    /// Set the dirtiness bound.
    pub fn max_dirtiness_ms(&mut self, v: u64)
        ensures
            final(self).max_dirtiness_ms == Some(v),
    {
        self.max_dirtiness_ms = Some(v);
    }

    /// Build the timing, filling unset fields with their defaults.
    pub fn build(&self) -> (r: CircuitTiming)
        ensures
            r.max_dirtiness_ms == (match self.max_dirtiness_ms {
                Some(v) => v,
                None => 600000,
            }),
    {
        CircuitTiming {
            max_dirtiness_ms: match self.max_dirtiness_ms {
                Some(v) => v,
                None => 600000,
            },
        }
    }
}

} // verus!
