//! Resolution of a service's runtime configuration.
//!
//! A configuration record comes from one of two sources: the variables of the
//! process environment that carry the application's prefix, or a configuration
//! authority that answers one HTTP POST. This library holds the rules of both:
//! which variables count, how a record is filled from them, what is asked of
//! the authority and how its answer is judged. Reading the environment and
//! talking to the network are left to the caller.

pub mod conf;
pub mod error;
pub mod number;
pub mod local;
pub mod remote;
pub mod resolver;

pub use conf::{init_conf_service, Conf, ConfView, ReqConfStruct};
pub use error::{ConfigError, Fault, Field};
pub use resolver::get_config;

