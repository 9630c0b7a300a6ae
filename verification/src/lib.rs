//! Verified core of a bridge between the Azure Functions host and an HTTP web application.
pub mod config;
pub mod grpc_handler;
pub mod http_forwarder;
pub mod http_proxy;
pub mod messages;
pub mod modes;
pub mod process;
pub mod proxy;
pub mod readiness;
pub mod text;
