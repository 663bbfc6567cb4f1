//! Deployment configuration: connection settings, the log-service layout and
//! the generated service configuration.

pub mod connection;
pub mod deployment;
pub mod disk_matrix;
pub mod layout_laws;
pub mod log_service;
pub mod proxy_service;
