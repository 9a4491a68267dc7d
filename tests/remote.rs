use bevy_remote::error_codes::{
    COMPONENT_NOT_PRESENT, ENTITY_NOT_FOUND, INTERNAL_ERROR, INVALID_REQUEST, METHOD_NOT_FOUND,
    SELF_REPARENT,
};
use bevy_remote::front::{MISSING_METHOD, NOT_AN_OBJECT, WRONG_VERSION};
use bevy_remote::query::{BATCH_UNSUPPORTED, MISSING_BODY};
use bevy_remote::{
    normal_reply, process_brp_batch, route, stream_step, ActiveStreams, BatchPlan, BrpError,
    BrpPayload, BrpRequest, BrpResponse, BrpResult, EntityId, ItemPlan, Json, RemoteMethod,
    RemoteMethods, Route, validate_websocket_request,
};

fn num(n: &str) -> Json {
    Json::Number(n.to_string())
}

fn text(s: &str) -> Json {
    Json::Str(s.to_string())
}

fn single(body: &str) -> ItemPlan {
    match process_brp_batch(body.as_bytes()) {
        BatchPlan::Single(p) => p,
        other => panic!("expected one item, got {:?}", other),
    }
}

fn dispatched(p: ItemPlan) -> BrpRequest {
    match p {
        ItemPlan::Dispatch(q) => q,
        other => panic!("expected a dispatch, got {:?}", other),
    }
}

fn rejected(p: ItemPlan) -> BrpResponse {
    match p {
        ItemPlan::Reply(r) => r,
        other => panic!("expected a rejection, got {:?}", other),
    }
}

fn error_of(r: &BrpResponse) -> &BrpError {
    match &r.payload {
        BrpPayload::Error(e) => e,
        other => panic!("expected an error, got {:?}", other),
    }
}

fn registry() -> RemoteMethods<u32, u32> {
    let mut m = RemoteMethods::new();
    m.insert("ping".to_string(), RemoteMethod::Normal(1));
    m.insert("watch".to_string(), RemoteMethod::Stream(2));
    m
}

#[test]
fn ping_round_trip() {
    let q = dispatched(single(r#"{"jsonrpc":"2.0","method":"ping","id":1}"#));
    assert_eq!(q.method, "ping");
    assert_eq!(q.jsonrpc, "2.0");
    assert_eq!(q.id, Some(num("1")));
    assert_eq!(q.params, None);
    let methods = registry();
    let handler = match route(&methods, &q.method) {
        Route::Run(h) => h,
        other => panic!("expected a normal handler, got {:?}", other),
    };
    assert_eq!(handler, 1);
    let result = normal_reply(Ok(Ok(text("pong"))));
    let resp = BrpResponse::new(q.id, result);
    assert_eq!(resp.jsonrpc, "2.0");
    assert_eq!(resp.id, Some(num("1")));
    assert_eq!(resp.payload, BrpPayload::Result(text("pong")));
}

#[test]
fn wrong_version_is_rejected_with_token() {
    let r = rejected(single(r#"{"jsonrpc":"1.0","method":"ping","id":{"k":[1,2]}}"#));
    let token = Json::Object(vec![("k".to_string(), Json::Array(vec![num("1"), num("2")]))]);
    assert_eq!(r.jsonrpc, "2.0");
    assert_eq!(r.id, Some(token));
    let e = error_of(&r);
    assert_eq!(e.code, INVALID_REQUEST);
    assert_eq!(e.message, WRONG_VERSION);
    assert_eq!(e.data, None);
}

#[test]
fn unparsable_body_gets_null_token() {
    match process_brp_batch(b"{\"jsonrpc\": ") {
        BatchPlan::Invalid(r) => {
            assert_eq!(r.id, None);
            let e = error_of(&r);
            assert_eq!(e.code, INVALID_REQUEST);
            assert!(!e.message.is_empty());
        }
        other => panic!("expected a parse failure, got {:?}", other),
    }
}

#[test]
fn empty_batch_gives_empty_array() {
    match process_brp_batch(b"[]") {
        BatchPlan::Batch(items) => assert!(items.is_empty()),
        other => panic!("expected a batch, got {:?}", other),
    }
}

#[test]
fn batch_keeps_order_and_isolates_failures() {
    let body = r#"[{"jsonrpc":"2.0","method":"a","id":1}, 5, {"jsonrpc":"2.0","method":"b","id":"x","params":[true]}]"#;
    let items = match process_brp_batch(body.as_bytes()) {
        BatchPlan::Batch(items) => items,
        other => panic!("expected a batch, got {:?}", other),
    };
    assert_eq!(items.len(), 3);
    let mut it = items.into_iter();
    let a = dispatched(it.next().unwrap());
    assert_eq!(a.method, "a");
    assert_eq!(a.id, Some(num("1")));
    let bad = rejected(it.next().unwrap());
    assert_eq!(bad.id, None);
    assert_eq!(error_of(&bad).message, NOT_AN_OBJECT);
    let b = dispatched(it.next().unwrap());
    assert_eq!(b.method, "b");
    assert_eq!(b.id, Some(text("x")));
    assert_eq!(b.params, Some(Json::Array(vec![Json::Bool(true)])));
}

#[test]
fn missing_method_keeps_token() {
    let r = rejected(single(r#"{"jsonrpc":"2.0","id":9}"#));
    assert_eq!(r.id, Some(num("9")));
    assert_eq!(error_of(&r).code, INVALID_REQUEST);
    assert_eq!(error_of(&r).message, MISSING_METHOD);
}

#[test]
fn null_token_and_params_count_as_absent() {
    let q = dispatched(single(r#"{"jsonrpc":"2.0","method":"m","id":null,"params":null}"#));
    assert_eq!(q.id, None);
    assert_eq!(q.params, None);
}

#[test]
fn unregistered_method_is_not_found() {
    let methods = registry();
    match route(&methods, "nope") {
        Route::Reply(Err(e)) => {
            assert_eq!(e.code, METHOD_NOT_FOUND);
            assert_eq!(e.message, "Method `nope` not found");
            assert_eq!(e.data, None);
        }
        other => panic!("expected method-not-found, got {:?}", other),
    }
}

#[test]
fn streaming_method_is_subscribed() {
    let methods = registry();
    assert_eq!(route(&methods, "watch"), Route::Subscribe(2));
}

#[test]
fn reregistering_keeps_latest() {
    let mut m: RemoteMethods<u32, u32> = RemoteMethods::new();
    assert_eq!(m.insert("x".to_string(), RemoteMethod::Normal(1)), None);
    assert_eq!(m.insert("x".to_string(), RemoteMethod::Stream(2)), Some(RemoteMethod::Normal(1)));
    assert_eq!(m.get("x"), Some(&RemoteMethod::Stream(2)));
    assert_eq!(m.get("y"), None);
}

#[test]
fn handler_fault_becomes_internal_error() {
    match normal_reply(Err("boom".to_string())) {
        Err(e) => {
            assert_eq!(e.code, INTERNAL_ERROR);
            assert_eq!(e.message, "Failed to run method handler: boom");
        }
        Ok(v) => panic!("expected an error, got {:?}", v),
    }
    let domain: BrpResult = Err(BrpError::internal("nope"));
    assert_eq!(normal_reply(Ok(domain)), Err(BrpError::internal("nope")));
}

#[test]
fn stream_sends_one_frame_on_third_tick() {
    let mut frames = Vec::new();
    let runs: Vec<Result<Option<BrpResult>, String>> =
        vec![Ok(None), Ok(None), Ok(Some(Ok(num("3"))))];
    for (tick, run) in runs.into_iter().enumerate() {
        let step = stream_step(run);
        assert!(step.keeps_alive(true));
        if let Some(frame) = step.frame {
            frames.push((tick + 1, frame));
        }
    }
    assert_eq!(frames, vec![(3, Ok(num("3")))]);
}

#[test]
fn stream_error_ends_subscription() {
    let step = stream_step(Ok(Some(Err(BrpError::internal("gone")))));
    assert!(step.terminal);
    assert_eq!(step.frame, Some(Err(BrpError::internal("gone"))));
    assert!(!step.keeps_alive(true));
    let fault = stream_step(Err("bad".to_string()));
    assert!(fault.terminal);
    match fault.frame {
        Some(Err(e)) => assert_eq!(e.code, INTERNAL_ERROR),
        other => panic!("expected an internal error, got {:?}", other),
    }
    let undelivered = stream_step(Ok(Some(Ok(Json::Null))));
    assert!(!undelivered.keeps_alive(false));
}

#[test]
fn retain_marked_drops_ended_streams() {
    let mut s: ActiveStreams<&str, u32> = ActiveStreams::new();
    s.subscribe("a", 1);
    s.subscribe("b", 2);
    s.subscribe("c", 3);
    s.retain_marked(&vec![true, false, true]);
    assert_eq!(s.len(), 2);
    assert_eq!(s.get(0).0, "a");
    assert_eq!(s.get(1).0, "c");
    assert_eq!(s.get(1).1, 3);
}

#[test]
fn websocket_body_is_decoded() {
    let q = b"x=1&body=%7B%22jsonrpc%22%3A%222.0%22%2C%22method%22%3A%22watch%22%2C%22id%22%3A3%7D";
    let req = validate_websocket_request(Some(q)).unwrap();
    assert_eq!(req.method, "watch");
    assert_eq!(req.id, Some(num("3")));
}

#[test]
fn websocket_last_body_wins() {
    let q = br#"body=1&body={"jsonrpc":"2.0","method":"w"}"#;
    let req = validate_websocket_request(Some(q)).unwrap();
    assert_eq!(req.method, "w");
}

#[test]
fn websocket_errors() {
    let e = validate_websocket_request(None).unwrap_err();
    assert_eq!(e.code, INVALID_REQUEST);
    assert_eq!(e.message, MISSING_BODY);
    let e = validate_websocket_request(Some(b"bodyx=1&body")).unwrap_err();
    assert_eq!(e.message, MISSING_BODY);
    let e = validate_websocket_request(Some(b"body=%5B%5D")).unwrap_err();
    assert_eq!(e.message, BATCH_UNSUPPORTED);
    let e = validate_websocket_request(Some(br#"body={"jsonrpc":"1.0","method":"w"}"#)).unwrap_err();
    assert_eq!(e.message, WRONG_VERSION);
    let e = validate_websocket_request(Some(b"body=%7B")).unwrap_err();
    assert_eq!(e.code, INVALID_REQUEST);
}

#[test]
fn entity_errors_name_the_entity() {
    let e = BrpError::entity_not_found(EntityId { index: 42, generation: 7 });
    assert_eq!(e.code, ENTITY_NOT_FOUND);
    assert_eq!(e.message, "Entity 42v7 not found");
    let e = BrpError::component_not_present("T", EntityId { index: 0, generation: 1 });
    assert_eq!(e.code, COMPONENT_NOT_PRESENT);
    assert_eq!(e.message, "Component `T` not present in Entity 0v1");
    let e = BrpError::self_reparent(EntityId { index: u32::MAX, generation: 1 });
    assert_eq!(e.code, SELF_REPARENT);
    assert_eq!(e.message, "Cannot reparent Entity PLACEHOLDER to itself");
}

#[test]
fn payload_from_result() {
    assert_eq!(BrpPayload::from(Ok(Json::Null)), BrpPayload::Result(Json::Null));
    let e = BrpError::component_error("c");
    assert_eq!(BrpPayload::from(Err(BrpError::component_error("c"))), BrpPayload::Error(e));
}
