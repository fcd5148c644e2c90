//! The HTTP control plane: peer ids, the audit log, and the routes.

pub mod audit;
pub mod http;
pub mod ids;
