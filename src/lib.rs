//! Resolution of asset paths to bytes: embedded data, prefix-routed handlers and
//! an optional default backend, with directory queries derived from a flat key space.

pub mod handler;
pub mod laws;
pub mod path;
pub mod plugin;
pub mod resolver;
pub mod store;

pub use handler::AssetIoAlternative;
pub use plugin::EmbassetPlugin;
pub use resolver::{EmbassetIo, Listing, LoadError, NotFound, Step};
