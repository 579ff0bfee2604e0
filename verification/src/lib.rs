//! A JSON-RPC 2.0 protocol core: the wire codec of the four message shapes and
//! the bookkeeping that matches requests to their responses.
pub mod envelope;
pub mod error;
pub mod id;
pub mod json;
pub mod notification;
pub mod params;
pub mod reactor;
pub mod request;
pub mod response;
pub mod rpc_error;

pub use error::Error;
pub use id::Id;
pub use notification::Notification;
pub use params::Params;
pub use reactor::{Delivery, PendingRequest, PendingTable, RequestIds};
pub use request::Request;
pub use response::Response;
pub use rpc_error::RpcError;
pub use serde_json::Value;
