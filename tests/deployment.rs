use std::sync::Arc;

use ecu_updater::{
    action_for, decode_failure_error, retry_connect, Action, ApplyOperation, BatchResult,
    ComponentResultSpec, ComponentSpec, DecodeFailure, DeploymentState, GetOperation,
    OperationRequest, Registry, RequestError, State, delete_item, status_from_read, update_item, METHOD_DELETE_RESOURCE_ID,
    METHOD_GET_RESOURCE_ID, METHOD_UPDATE_RESOURCE_ID,
};
use symphony::models::DeploymentSpec;

fn ctx() -> DeploymentSpec {
    DeploymentSpec::empty()
}

fn with_fw(name: &str, url: &str) -> ComponentSpec {
    ComponentSpec::with_properties(name.to_string(), vec![("fw-image".to_string(), url.to_string())])
}

fn bare(name: &str) -> ComponentSpec {
    ComponentSpec::with_properties(name.to_string(), vec![])
}

fn result_of(r: &BatchResult, name: &str) -> ComponentResultSpec {
    r.get(&name.to_string()).expect("a result for every name")
}

#[test]
fn update_then_fetch_example() {
    let state = DeploymentState::new();
    let r = state.update_components(vec![with_fw("ecu-1", "http://x/fw.bin")], ctx());
    assert_eq!(r.len(), 1);
    let res = result_of(&r, "ecu-1");
    assert_eq!(res.status, State::OK);
    assert_eq!(res.message, "component updated successfully");
    let got = state.get_status(vec![ComponentSpec::named("ecu-1".to_string())], ctx());
    assert_eq!(got.len(), 1);
    assert_eq!(got[0].name, "ecu-1");
    assert_eq!(
        got[0].properties,
        Some(vec![("fw-image".to_string(), "http://x/fw.bin".to_string())])
    );
}

#[test]
fn update_without_fw_image_example() {
    let state = DeploymentState::new();
    let r = state.update_components(vec![bare("ecu-2")], ctx());
    let res = result_of(&r, "ecu-2");
    assert_eq!(res.status, State::InvalidArgument);
    assert_eq!(res.message, "Firmware ComponentSpec must contain fw-image property");
    assert!(state.get_status(vec![ComponentSpec::named("ecu-2".to_string())], ctx()).is_empty());
}

#[test]
fn update_without_properties_is_invalid() {
    let state = DeploymentState::new();
    let r = state.update_components(vec![ComponentSpec::named("ecu-3".to_string())], ctx());
    assert_eq!(result_of(&r, "ecu-3").status, State::InvalidArgument);
}

#[test]
fn invalid_update_keeps_previous_entry() {
    let state = DeploymentState::new();
    state.update_components(vec![with_fw("ecu-1", "http://x/a.bin")], ctx());
    let r = state.update_components(
        vec![ComponentSpec::with_properties(
            "ecu-1".to_string(),
            vec![("version".to_string(), "2".to_string())],
        )],
        ctx(),
    );
    assert_eq!(result_of(&r, "ecu-1").status, State::InvalidArgument);
    let got = state.get_status(vec![ComponentSpec::named("ecu-1".to_string())], ctx());
    assert_eq!(got.len(), 1);
    assert_eq!(
        got[0].properties,
        Some(vec![("fw-image".to_string(), "http://x/a.bin".to_string())])
    );
}

#[test]
fn delete_example() {
    let state = DeploymentState::new();
    state.update_components(vec![with_fw("ecu-1", "http://x/fw.bin")], ctx());
    let r = state.delete_components(vec![ComponentSpec::named("ecu-1".to_string())], ctx());
    let res = result_of(&r, "ecu-1");
    assert_eq!(res.status, State::Deleted);
    assert_eq!(res.message, "component deleted successfully");
    assert!(state.get_status(vec![ComponentSpec::named("ecu-1".to_string())], ctx()).is_empty());
}

#[test]
fn delete_absent_is_deleted_and_keeps_others() {
    let state = DeploymentState::new();
    state.update_components(vec![with_fw("ecu-1", "http://x/fw.bin")], ctx());
    let r = state.delete_components(vec![ComponentSpec::named("ghost".to_string())], ctx());
    assert_eq!(result_of(&r, "ghost").status, State::Deleted);
    assert_eq!(state.get_status(vec![ComponentSpec::named("ecu-1".to_string())], ctx()).len(), 1);
    let again = state.delete_components(vec![ComponentSpec::named("ghost".to_string())], ctx());
    assert_eq!(result_of(&again, "ghost").status, State::Deleted);
}

#[test]
fn mixed_batch_reports_both_items() {
    let state = DeploymentState::new();
    let r = state.update_components(vec![bare("bad"), with_fw("good", "http://x/g.bin")], ctx());
    assert_eq!(r.len(), 2);
    assert_eq!(result_of(&r, "bad").status, State::InvalidArgument);
    assert_eq!(result_of(&r, "good").status, State::OK);
    let got = state.get_status(
        vec![ComponentSpec::named("bad".to_string()), ComponentSpec::named("good".to_string())],
        ctx(),
    );
    assert_eq!(got.len(), 1);
    assert_eq!(got[0].name, "good");
}

#[test]
fn last_item_of_a_name_wins_in_results() {
    let state = DeploymentState::new();
    let r = state.update_components(vec![with_fw("ecu-1", "http://x/a.bin"), bare("ecu-1")], ctx());
    assert_eq!(r.len(), 1);
    assert_eq!(result_of(&r, "ecu-1").status, State::InvalidArgument);
    let got = state.get_status(vec![ComponentSpec::named("ecu-1".to_string())], ctx());
    assert_eq!(got.len(), 1);
    assert_eq!(
        got[0].properties,
        Some(vec![("fw-image".to_string(), "http://x/a.bin".to_string())])
    );
}

#[test]
fn fetch_keeps_reference_order_and_skips_unknown() {
    let state = DeploymentState::new();
    state.update_components(
        vec![with_fw("a", "http://x/a.bin"), with_fw("b", "http://x/b.bin")],
        ctx(),
    );
    let got = state.get_status(
        vec![
            ComponentSpec::named("b".to_string()),
            ComponentSpec::named("zz".to_string()),
            ComponentSpec::named("a".to_string()),
        ],
        ctx(),
    );
    let names: Vec<&str> = got.iter().map(|c| c.name.as_str()).collect();
    assert_eq!(names, vec!["b", "a"]);
}

#[test]
fn round_trip_returns_submitted_component() {
    let state = DeploymentState::new();
    let spec = ComponentSpec::with_properties(
        "ecu-9".to_string(),
        vec![
            ("version".to_string(), "1.2".to_string()),
            ("fw-image".to_string(), "http://x/9.bin".to_string()),
        ],
    );
    state.update_components(vec![spec.duplicate()], ctx());
    let got = state.get_status(vec![ComponentSpec::named("ecu-9".to_string())], ctx());
    assert_eq!(got.len(), 1);
    assert_eq!(got[0].name, spec.name);
    assert_eq!(got[0].properties, spec.properties);
}

#[test]
fn replay_of_updates_and_deletes() {
    let state = DeploymentState::new();
    state.update_components(vec![with_fw("n", "http://x/1.bin")], ctx());
    state.update_components(vec![with_fw("n", "http://x/2.bin")], ctx());
    state.update_components(vec![bare("n")], ctx());
    let got = state.get_status(vec![ComponentSpec::named("n".to_string())], ctx());
    assert_eq!(got[0].properties, Some(vec![("fw-image".to_string(), "http://x/2.bin".to_string())]));
    state.delete_components(vec![ComponentSpec::named("n".to_string())], ctx());
    assert!(state.get_status(vec![ComponentSpec::named("n".to_string())], ctx()).is_empty());
}

#[test]
fn registry_insert_replace_remove() {
    let mut reg = Registry::new();
    assert!(reg.apply_update(&with_fw("a", "http://x/1.bin")));
    assert!(!reg.apply_update(&bare("b")));
    assert!(reg.apply_update(&with_fw("a", "http://x/2.bin")));
    let a = reg.get(&"a".to_string()).unwrap();
    assert_eq!(a.properties, Some(vec![("fw-image".to_string(), "http://x/2.bin".to_string())]));
    assert!(reg.get(&"b".to_string()).is_none());
    reg.apply_delete(&"a".to_string());
    assert!(reg.get(&"a".to_string()).is_none());
    assert!(reg.fetch(&vec![ComponentSpec::named("a".to_string())]).is_empty());
}

#[test]
fn fw_image_detection() {
    assert!(with_fw("a", "u").has_fw_image());
    assert!(!bare("a").has_fw_image());
    assert!(!ComponentSpec::named("a".to_string()).has_fw_image());
    let other = ComponentSpec::with_properties(
        "a".to_string(),
        vec![("fw-imagex".to_string(), "u".to_string())],
    );
    assert!(!other.has_fw_image());
}

#[test]
fn batch_result_replaces_earlier_result() {
    let mut r = BatchResult::new();
    r.insert("a".to_string(), ComponentResultSpec::new(State::OK, "x"));
    r.insert("a".to_string(), ComponentResultSpec::new(State::InternalError, "y"));
    r.insert("b".to_string(), ComponentResultSpec::new(State::Deleted, "z"));
    assert_eq!(r.len(), 2);
    assert_eq!(result_of(&r, "a").status, State::InternalError);
    assert_eq!(result_of(&r, "a").message, "y");
    assert!(r.get(&"c".to_string()).is_none());
}

#[test]
fn actions_of_resources() {
    assert_eq!(action_for(METHOD_UPDATE_RESOURCE_ID), Some(Action::Update));
    assert_eq!(action_for(METHOD_DELETE_RESOURCE_ID), Some(Action::Delete));
    assert_eq!(action_for(METHOD_GET_RESOURCE_ID), None);
    assert_eq!(action_for(0x0009), None);
}

#[test]
fn retry_stops_on_auth_failures() {
    assert!(!retry_connect(16));
    assert!(!retry_connect(7));
    assert!(retry_connect(14));
    assert!(retry_connect(0));
}

fn invalid_message(e: RequestError) -> String {
    match e {
        RequestError::InvalidArgument(m) => m,
        other => panic!("unexpected error {:?}", other),
    }
}

#[test]
fn decode_failures_become_invalid_argument() {
    assert_eq!(invalid_message(decode_failure_error(DecodeFailure::NoJsonPayload)), "request has no JSON payload");
    assert_eq!(
        invalid_message(decode_failure_error(DecodeFailure::MalformedPayload)),
        "request payload is not a valid UTF-8 string"
    );
    assert_eq!(
        invalid_message(decode_failure_error(DecodeFailure::NoDeploymentSpec)),
        "request does not contain DeploymentSpec"
    );
    assert_eq!(
        invalid_message(decode_failure_error(DecodeFailure::NoComponentArray)),
        "request does not contain ComponentSpec array"
    );
}

#[test]
fn dispatcher_routes_writes_and_reads() {
    let state = Arc::new(DeploymentState::new());
    let get = GetOperation::new(state.clone());
    let apply = ApplyOperation::new(state.clone());
    let req = OperationRequest { deployment: ctx(), components: vec![with_fw("ecu-1", "http://x/fw.bin")] };
    let r = apply.handle_request(METHOD_UPDATE_RESOURCE_ID, Ok(req)).unwrap();
    assert_eq!(result_of(&r, "ecu-1").status, State::OK);
    let read = OperationRequest { deployment: ctx(), components: vec![ComponentSpec::named("ecu-1".to_string())] };
    let got = get.handle_request(Ok(read)).unwrap();
    assert_eq!(got.len(), 1);
    let del = OperationRequest { deployment: ctx(), components: vec![ComponentSpec::named("ecu-1".to_string())] };
    let r = apply.handle_request(METHOD_DELETE_RESOURCE_ID, Ok(del)).unwrap();
    assert_eq!(result_of(&r, "ecu-1").status, State::Deleted);
    let read = OperationRequest { deployment: ctx(), components: vec![ComponentSpec::named("ecu-1".to_string())] };
    assert!(get.handle_request(Ok(read)).unwrap().is_empty());
}

#[test]
fn dispatcher_rejects_unknown_action_without_touching_state() {
    let state = Arc::new(DeploymentState::new());
    let apply = ApplyOperation::new(state.clone());
    let req = OperationRequest { deployment: ctx(), components: vec![with_fw("ecu-1", "http://x/fw.bin")] };
    match apply.handle_request(METHOD_GET_RESOURCE_ID, Ok(req)) {
        Err(RequestError::Unimplemented(m)) => assert_eq!(m, "no such operation"),
        other => panic!("unexpected {:?}", other.is_ok()),
    }
    assert!(state.get_status(vec![ComponentSpec::named("ecu-1".to_string())], ctx()).is_empty());
}

#[test]
fn dispatcher_reports_decode_failure_first() {
    let state = Arc::new(DeploymentState::new());
    let apply = ApplyOperation::new(state.clone());
    let get = GetOperation::new(state);
    match apply.handle_request(0x0042, Err(DecodeFailure::NoComponentArray)) {
        Err(RequestError::InvalidArgument(m)) => assert_eq!(m, "request does not contain ComponentSpec array"),
        _ => panic!("expected an invalid argument"),
    }
    match get.handle_request(Err(DecodeFailure::NoDeploymentSpec)) {
        Err(RequestError::InvalidArgument(m)) => assert_eq!(m, "request does not contain DeploymentSpec"),
        _ => panic!("expected an invalid argument"),
    }
}

#[test]
fn sequential_fetches_see_whole_entries() {
    let state = Arc::new(DeploymentState::new());
    let a = ComponentSpec::with_properties(
        "c".to_string(),
        vec![("fw-image".to_string(), "http://x/a.bin".to_string()), ("v".to_string(), "a".to_string())],
    );
    let b = ComponentSpec::with_properties(
        "c".to_string(),
        vec![("fw-image".to_string(), "http://x/b.bin".to_string()), ("v".to_string(), "b".to_string())],
    );
    let readers = [state.clone(), state.clone()];
    for i in 0..50 {
        let next = if i % 2 == 0 { &a } else { &b };
        state.update_components(vec![next.duplicate()], ctx());
        for r in readers.iter() {
            let got = r.get_status(vec![ComponentSpec::named("c".to_string())], ctx());
            assert_eq!(got.len(), 1);
            assert_eq!(got[0].properties, next.properties);
            assert!(got[0].properties == a.properties || got[0].properties == b.properties);
        }
    }
}

#[test]
fn update_item_validates_and_inserts() {
    let mut reg = Registry::new();
    let r = update_item(&mut reg, &bare("x"));
    assert_eq!(r.status, State::InvalidArgument);
    assert_eq!(r.message, "Firmware ComponentSpec must contain fw-image property");
    assert!(reg.get(&"x".to_string()).is_none());
    let r = update_item(&mut reg, &with_fw("x", "http://x/x.bin"));
    assert_eq!(r.status, State::OK);
    assert_eq!(r.message, "component updated successfully");
    assert_eq!(reg.get(&"x".to_string()).unwrap().name, "x");
}

#[test]
fn delete_item_removes_and_is_idempotent() {
    let mut reg = Registry::new();
    update_item(&mut reg, &with_fw("x", "http://x/x.bin"));
    let r = delete_item(&mut reg, &ComponentSpec::named("x".to_string()));
    assert_eq!(r.status, State::Deleted);
    assert_eq!(r.message, "component deleted successfully");
    assert!(reg.get(&"x".to_string()).is_none());
    let again = delete_item(&mut reg, &ComponentSpec::named("x".to_string()));
    assert_eq!(again.status, State::Deleted);
}

#[test]
fn status_from_failed_read_is_empty() {
    let mut reg = Registry::new();
    update_item(&mut reg, &with_fw("x", "http://x/x.bin"));
    let refs = vec![ComponentSpec::named("x".to_string())];
    assert_eq!(status_from_read(Some(&reg), &refs).len(), 1);
    assert!(status_from_read(None, &refs).is_empty());
}
