//! The request dispatcher: from a decoded request to the operation on the
//! shared state, and from its outcome to the response.
use vstd::prelude::*;

use std::sync::Arc;

use symphony::models::DeploymentSpec;

use crate::model::{views, ComponentSpec, ComponentSpecView};
use crate::registry::{fetch_model, valid_registry};
use crate::results::BatchResult;
use crate::state::{delete_results, update_results, DeploymentState};

verus! {

/// The resource of the read operation.
pub const METHOD_GET_RESOURCE_ID: u16 = 0x0001;

/// The resource of the update operation.
pub const METHOD_UPDATE_RESOURCE_ID: u16 = 0x0002;

/// The resource of the delete operation.
pub const METHOD_DELETE_RESOURCE_ID: u16 = 0x0003;

/// The status code of a failed authentication.
pub const CODE_UNAUTHENTICATED: i32 = 16;

/// The status code of a denied permission.
pub const CODE_PERMISSION_DENIED: i32 = 7;

/// A write action, selected by the resource that a request was sent to.
#[derive(Clone, Copy, Debug, PartialEq, Eq, Structural)]
pub enum Action {
    Update,
    Delete,
}

pub open spec fn action_spec(resource_id: u16) -> Option<Action> {
    if resource_id == METHOD_UPDATE_RESOURCE_ID {
        Some(Action::Update)
    } else if resource_id == METHOD_DELETE_RESOURCE_ID {
        Some(Action::Delete)
    } else {
        None
    }
}

/// The write action of a resource, if it has one.
pub fn action_for(resource_id: u16) -> (r: Option<Action>)
    ensures
        r == action_spec(resource_id),
{
    if resource_id == METHOD_UPDATE_RESOURCE_ID {
        Some(Action::Update)
    } else if resource_id == METHOD_DELETE_RESOURCE_ID {
        Some(Action::Delete)
    } else {
        None
    }
}

/// Whether a failed connection attempt is worth another try: not when
/// authentication failed or permission was denied.
pub fn retry_connect(code: i32) -> (r: bool)
    ensures
        r == (code != CODE_UNAUTHENTICATED && code != CODE_PERMISSION_DENIED),
{
    code != CODE_UNAUTHENTICATED && code != CODE_PERMISSION_DENIED
}

/// Why a request could not be decoded.
#[derive(Clone, Copy, Debug, PartialEq, Eq, Structural)]
pub enum DecodeFailure {
    /// There is no payload, or it is not marked as JSON.
    NoJsonPayload,
    /// The payload is not valid JSON.
    MalformedPayload,
    /// The deployment descriptor is missing or invalid.
    NoDeploymentSpec,
    /// The component list is missing or invalid.
    NoComponentArray,
}

pub open spec fn decode_failure_message(f: DecodeFailure) -> Seq<char> {
    match f {
        DecodeFailure::NoJsonPayload => "request has no JSON payload"@,
        DecodeFailure::MalformedPayload => "request payload is not a valid UTF-8 string"@,
        DecodeFailure::NoDeploymentSpec => "request does not contain DeploymentSpec"@,
        DecodeFailure::NoComponentArray => "request does not contain ComponentSpec array"@,
    }
}

pub open spec fn no_such_operation_message() -> Seq<char> {
    "no such operation"@
}

/// A failure of a whole request.
#[derive(Clone, Debug)]
pub enum RequestError {
    InvalidArgument(String),
    Unimplemented(String),
    Internal(String),
}

/// The error that reports a decode failure to the caller.
pub fn decode_failure_error(f: DecodeFailure) -> (r: RequestError)
    ensures
        r matches RequestError::InvalidArgument(m) && m@ == decode_failure_message(f),
{
    proof {
        reveal_strlit("request has no JSON payload");
        reveal_strlit("request payload is not a valid UTF-8 string");
        reveal_strlit("request does not contain DeploymentSpec");
        reveal_strlit("request does not contain ComponentSpec array");
    }
    let m = match f {
        DecodeFailure::NoJsonPayload => "request has no JSON payload",
        DecodeFailure::MalformedPayload => "request payload is not a valid UTF-8 string",
        DecodeFailure::NoDeploymentSpec => "request does not contain DeploymentSpec",
        DecodeFailure::NoComponentArray => "request does not contain ComponentSpec array",
    };
    RequestError::InvalidArgument(m.to_owned())
}

/// A decoded request: the deployment context and the component references.
pub struct OperationRequest {
    pub deployment: DeploymentSpec,
    pub components: Vec<ComponentSpec>,
}

/// The read path.
pub struct GetOperation {
    state: Arc<DeploymentState>,
}

impl GetOperation {
    pub fn new(state: Arc<DeploymentState>) -> (r: GetOperation) {
        GetOperation { state }
    }

    /// Fetches the referenced components, or reports the decode failure
    /// without touching the state.
    pub fn handle_request(&self, request: Result<OperationRequest, DecodeFailure>) -> (r: Result<
        Vec<ComponentSpec>,
        RequestError,
    >)
        ensures
            match request {
                Err(f) => r matches Err(RequestError::InvalidArgument(m)) && m@ == decode_failure_message(f),
                Ok(req) => r matches Ok(v) && exists|m: Map<Seq<char>, ComponentSpecView>|
                    valid_registry(m) && views(v@) == fetch_model(m, views(req.components@)),
            },
    {
        match request {
            Err(f) => Err(decode_failure_error(f)),
            Ok(req) => Ok(self.state.get_status(req.components, req.deployment)),
        }
    }
}

/// The write path.
pub struct ApplyOperation {
    state: Arc<DeploymentState>,
}

impl ApplyOperation {
    pub fn new(state: Arc<DeploymentState>) -> (r: ApplyOperation) {
        ApplyOperation { state }
    }

    /// Applies the batch with the action of the resource. A decode failure is
    /// reported first, then a resource without an action; neither touches
    /// the state.
    pub fn handle_request(&self, resource_id: u16, request: Result<OperationRequest, DecodeFailure>) -> (r: Result<
        BatchResult,
        RequestError,
    >)
        ensures
            match request {
                Err(f) => r matches Err(RequestError::InvalidArgument(m)) && m@ == decode_failure_message(f),
                Ok(req) => match action_spec(resource_id) {
                    None => r matches Err(RequestError::Unimplemented(m)) && m@ == no_such_operation_message(),
                    Some(Action::Update) => r matches Ok(b) && exists|acquired: Seq<bool>|
                        acquired.len() == req.components@.len()
                        && b@ == update_results(views(req.components@), acquired),
                    Some(Action::Delete) => r matches Ok(b) && exists|acquired: Seq<bool>|
                        acquired.len() == req.components@.len()
                        && b@ == delete_results(views(req.components@), acquired),
                },
            },
    {
        match request {
            Err(f) => Err(decode_failure_error(f)),
            Ok(req) => match action_for(resource_id) {
                Some(Action::Update) => Ok(self.state.update_components(req.components, req.deployment)),
                Some(Action::Delete) => Ok(self.state.delete_components(req.components, req.deployment)),
                None => {
                    proof {
                        reveal_strlit("no such operation");
                    }
                    Err(RequestError::Unimplemented("no such operation".to_owned()))
                },
            },
        }
    }
}

} // verus!
