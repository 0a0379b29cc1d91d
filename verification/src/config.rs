//! The service configuration: one immutable value, assembled at startup
//! and handed to each request handler.

use vstd::prelude::*;

use crate::api::ApiConfig;
use crate::debug;
use crate::run;
use crate::unix_stream;

verus! {

/// Everything the service needs for one request.
pub struct Config {
    pub server: ServerConfig,
    pub api: ApiConfig,
    pub unix_socket: unix_stream::Config,
    pub container: run::ContainerConfig,
    pub run: run::Limits,
    pub debug: debug::Config,
}

/// Where the front-end listens and with how many workers.
pub struct ServerConfig {
    pub listen_addr: String,
    pub listen_port: u16,
    pub worker_threads: usize,
}

} // verus!
