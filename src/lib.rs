//! An in-memory inventory of firmware components, reachable through a
//! transport-agnostic request dispatcher.
//!
//! The registry maps component names to the last accepted component
//! specification. Batches of updates and deletes are applied item by item,
//! each under its own exclusive access to the registry, and every item gets a
//! result of its own.
pub mod model;
pub mod registry;
pub mod results;
pub mod state;
pub mod dispatch;
pub mod laws;

pub use dispatch::{
    action_for, decode_failure_error, retry_connect, Action, ApplyOperation, DecodeFailure,
    GetOperation, OperationRequest, RequestError, METHOD_DELETE_RESOURCE_ID,
    METHOD_GET_RESOURCE_ID, METHOD_UPDATE_RESOURCE_ID,
};
pub use model::{ComponentResultSpec, ComponentSpec, State};
pub use registry::Registry;
pub use results::BatchResult;
pub use state::{delete_item, status_from_read, update_item, DeploymentState};
