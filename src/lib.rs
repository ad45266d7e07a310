//! An embeddable session store: sessions of independently expirable
//! key/value pairs over a pluggable backend, and a collector that reclaims
//! sessions older than a configured lifetime.
pub use session::SessionError;

pub mod utils;
pub mod value;
pub mod session;
pub mod collector;
pub mod backend;
