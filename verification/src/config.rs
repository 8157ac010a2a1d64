use vstd::prelude::*;

verus! {

/// Why a configuration cannot start the proxy.
#[derive(Clone, Copy, PartialEq, Eq, Structural, Debug)]
pub enum ConfigError {
    /// No upstream address was supplied, so there is nobody to forward to.
    NoUpstreams,
}

/// What the proxy is started with, fixed for the life of the process.
pub struct Config {
    /// The address the listener binds.
    pub bind: String,
    /// The configured upstream addresses, `host:port` each.
    pub upstreams: Vec<String>,
    /// Seconds between two health-check cycles.
    pub health_check_interval: u64,
    /// The path probed on each upstream.
    pub health_check_path: String,
    /// Requests one client IP may make per minute; zero disables limiting.
    pub max_requests_per_minute: usize,
}

impl Config {
    /// Accepts a configuration exactly when at least one upstream is
    /// supplied; without one the proxy must refuse to start.
    pub fn new(
        bind: String,
        upstreams: Vec<String>,
        health_check_interval: u64,
        health_check_path: String,
        max_requests_per_minute: usize,
    ) -> (r: Result<Config, ConfigError>)
        ensures
            match r {
                Result::Ok(c) => {
                    &&& upstreams@.len() >= 1
                    &&& c.bind == bind
                    &&& c.upstreams == upstreams
                    &&& c.health_check_interval == health_check_interval
                    &&& c.health_check_path == health_check_path
                    &&& c.max_requests_per_minute == max_requests_per_minute
                },
                Result::Err(e) => upstreams@.len() == 0 && e == ConfigError::NoUpstreams,
            },
    {
        if upstreams.len() == 0 {
            Result::Err(ConfigError::NoUpstreams)
        } else {
            Result::Ok(
                Config {
                    bind,
                    upstreams,
                    health_check_interval,
                    health_check_path,
                    max_requests_per_minute,
                },
            )
        }
    }
}

} // verus!
