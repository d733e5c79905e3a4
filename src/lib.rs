//! Host-based permanent redirects: a fixed table of source domains, an
//! optional fallback destination, and the decision taken for each request.
pub mod header;
pub mod laws;
pub mod pair;
pub mod resolver;

pub use pair::{ConfigError, DomainPair};
pub use resolver::{location_error_body, App, Reply};
