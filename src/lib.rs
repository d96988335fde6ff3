//! A small HTTP content server: the configuration it is started with, how a
//! request path is routed, and what reply is built for it.

use vstd::prelude::*;

pub mod content;
pub mod parse;
pub mod router;
pub mod text;

pub use content::{RouteEntry, ServeConfig, ServeContent, DEFAULT_PORT};
pub use parse::{ConfigError, ConfigLoad, ExternalConfig, Resolution, RoutedFile, RoutedRawContent};
pub use router::{build_reply, log_line, route, Reply, RouteMatch};

verus! {

} // verus!
