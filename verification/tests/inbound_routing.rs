use dapr_components::cloud_event::{json_bytes, parse_cloud_event, JsonField};
use dapr_components::grpc::{dispatch, invoke_reply, verb_pb, CallbackMethod, GRPC_INTERNAL, GRPC_UNIMPLEMENTED};
use dapr_components::inbound::{
    concurrency_number, concurrency_text, topic_status_number, topic_status_text,
    BindingConcurrency, TopicEventResponse,
};
use dapr_components::inbound::{
    binding_metadata, header, map_verb, non_empty, route, route_actor, split_segments,
    verb_from_proto, ActorRoute, HttpVerb, Method, Route, RouteStep, PUBSUB_ROUTE,
};

fn s(text: &str) -> String {
    text.to_string()
}

fn done(method: Method, path: &str, bindings: &[&str]) -> Route<String> {
    let names: Vec<String> = bindings.iter().map(|b| b.to_string()).collect();
    match route(method, path, Some(&names)) {
        RouteStep::Done(r) => r,
        RouteStep::NeedBindings => panic!("bindings were given"),
    }
}

#[test]
fn health_and_discovery_routes() {
    assert_eq!(route(Method::Get, "/healthz", None), RouteStep::Done(Route::Health));
    assert_eq!(route(Method::Get, "/dapr/subscribe", None), RouteStep::Done(Route::Subscribe));
    assert_eq!(route(Method::Get, "/dapr/config", None), RouteStep::Done(Route::ActorConfig));
}

#[test]
fn post_to_healthz_is_an_invocation() {
    assert_eq!(
        done(Method::Post, "/healthz", &[]),
        Route::Invocation { method: s("healthz"), verb: HttpVerb::Post }
    );
}

#[test]
fn options_asks_for_bindings_then_verifies() {
    assert_eq!(route(Method::Options, "/orders", None), RouteStep::NeedBindings);
    assert_eq!(done(Method::Options, "/orders", &["orders"]), Route::BindingCheck);
    assert_eq!(
        done(Method::Options, "/other", &["orders"]),
        Route::Invocation { method: s("other"), verb: HttpVerb::Options }
    );
}

#[test]
fn pubsub_route_wins_over_bindings() {
    assert_eq!(route(Method::Post, PUBSUB_ROUTE, None), RouteStep::Done(Route::TopicEvent));
    assert_eq!(
        done(Method::Post, "/__dapr_wasm_components/pubsub", &["__dapr_wasm_components/pubsub"]),
        Route::TopicEvent
    );
}

#[test]
fn job_trigger_decodes_its_name() {
    assert_eq!(
        route(Method::Post, "/job/nightly%20report", None),
        RouteStep::Done(Route::Job { name: s("nightly report") })
    );
}

#[test]
fn configuration_update_takes_the_store() {
    assert_eq!(
        route(Method::Post, "/configuration/my%20store/key1", None),
        RouteStep::Done(Route::ConfigurationUpdate { store: s("my store") })
    );
    // No store segment: not a configuration update.
    assert_eq!(route(Method::Post, "/configuration//key", None), RouteStep::NeedBindings);
}

#[test]
fn actor_routes() {
    assert_eq!(
        route(Method::Put, "/actors/Counter/7/method/timer/tick", None),
        RouteStep::Done(Route::Actor(ActorRoute::Timer {
            actor_type: s("Counter"),
            actor_id: s("7"),
            name: s("tick")
        }))
    );
    assert_eq!(
        route(Method::Put, "/actors/Counter/7/method/remind/r1", None),
        RouteStep::Done(Route::Actor(ActorRoute::Reminder {
            actor_type: s("Counter"),
            actor_id: s("7"),
            name: s("r1")
        }))
    );
    assert_eq!(
        route(Method::Put, "/actors/Counter/7/method/add/more", None),
        RouteStep::Done(Route::Actor(ActorRoute::Invoke {
            actor_type: s("Counter"),
            actor_id: s("7"),
            method: s("add/more")
        }))
    );
    assert_eq!(
        route(Method::Delete, "/actors/Counter/7", None),
        RouteStep::Done(Route::Actor(ActorRoute::Deactivate {
            actor_type: s("Counter"),
            actor_id: s("7")
        }))
    );
}

#[test]
fn actor_timer_without_name_is_a_method_named_timer() {
    assert_eq!(
        route_actor(Method::Put, "T/1/method/timer"),
        Some(ActorRoute::Invoke { actor_type: s("T"), actor_id: s("1"), method: s("timer") })
    );
}

#[test]
fn actor_segments_are_decoded_and_empty_ones_dropped() {
    assert_eq!(
        route_actor(Method::Post, "My%20Type//id%2F1/method/do"),
        Some(ActorRoute::Invoke { actor_type: s("My Type"), actor_id: s("id/1"), method: s("do") })
    );
}

#[test]
fn unknown_actor_shapes_fall_through() {
    assert_eq!(route_actor(Method::Get, "T/1"), None);
    assert_eq!(route_actor(Method::Delete, "T"), None);
    assert_eq!(route_actor(Method::Put, "T/1/state/x"), None);
    assert_eq!(
        done(Method::Get, "/actors/T/1", &[]),
        Route::Invocation { method: s("actors/T/1"), verb: HttpVerb::Get }
    );
}

#[test]
fn binding_delivery_needs_a_declared_name() {
    assert_eq!(route(Method::Post, "/orders", None), RouteStep::NeedBindings);
    assert_eq!(done(Method::Post, "/orders", &["orders"]), Route::Binding { name: s("orders") });
    assert_eq!(
        done(Method::Post, "//orders", &["orders"]),
        Route::Binding { name: s("orders") }
    );
}

#[test]
fn everything_else_is_service_invocation() {
    assert_eq!(
        done(Method::Patch, "/api/items/3", &["orders"]),
        Route::Invocation { method: s("api/items/3"), verb: HttpVerb::Patch }
    );
    assert_eq!(
        done(Method::Trace, "/x", &[]),
        Route::Invocation { method: s("x"), verb: HttpVerb::Post }
    );
}

#[test]
fn verb_mappings() {
    assert_eq!(map_verb(Method::Connect), HttpVerb::Post);
    assert_eq!(map_verb(Method::Head), HttpVerb::Head);
    assert_eq!(verb_from_proto(0), HttpVerb::Post);
    assert_eq!(verb_from_proto(1), HttpVerb::Get);
    assert_eq!(verb_from_proto(9), HttpVerb::Patch);
    assert_eq!(verb_from_proto(8), HttpVerb::Post);
    assert_eq!(verb_from_proto(42), HttpVerb::Post);
}

#[test]
fn header_lookup_is_case_insensitive_first_match() {
    let headers = vec![(s("X-A"), s("1")), (s("Content-Type"), s("text/plain")), (s("content-type"), s("b"))];
    assert_eq!(header(&headers, "content-type"), Some(s("text/plain")));
    assert_eq!(header(&headers, "missing"), None);
}

#[test]
fn binding_metadata_strips_the_prefix() {
    let headers = vec![
        (s("metadata.table"), s("orders")),
        (s("content-type"), s("x")),
        (s("Metadata.case"), s("kept out")),
        (s("metadata."), s("empty key")),
    ];
    assert_eq!(
        binding_metadata(&headers),
        vec![(s("table"), s("orders")), (s(""), s("empty key"))]
    );
}

#[test]
fn segments_split_on_slashes() {
    assert_eq!(split_segments("/a//b/"), vec![s("a"), s("b")]);
    assert_eq!(split_segments(""), Vec::<String>::new());
}

#[test]
fn non_empty_strings() {
    assert_eq!(non_empty(String::new()), None);
    assert_eq!(non_empty(s("x")), Some(s("x")));
}

fn text(key: &str, value: &str) -> (String, JsonField<String>) {
    (s(key), JsonField::Text(s(value)))
}

fn other(key: &str, rendered: &str) -> (String, JsonField<String>) {
    (s(key), JsonField::Other(s(rendered)))
}

#[test]
fn cloud_event_with_json_data() {
    let entries = vec![
        other("data", "{\"orderId\":1}"),
        text("id", "e1"),
        text("pubsubname", "pubsub"),
        text("source", "checkout"),
        text("topic", "orders"),
        text("traceparent", "00-abc"),
        text("type", "com.dapr.event.sent"),
        other("x-priority", "5"),
        text("x-team", "red"),
    ];
    let event = parse_cloud_event(&entries).unwrap();
    assert_eq!(event.id, "e1");
    assert_eq!(event.source, "checkout");
    assert_eq!(event.type_, "com.dapr.event.sent");
    assert_eq!(event.spec_version, "1.0");
    assert_eq!(event.data, b"{\"orderId\":1}".to_vec());
    assert_eq!(event.data_content_type, Some(s("application/json")));
    assert_eq!(event.topic, "orders");
    assert_eq!(event.pubsub_name, "pubsub");
    assert_eq!(event.path, None);
    assert_eq!(event.extensions, vec![(s("x-priority"), s("5")), (s("x-team"), s("red"))]);
}

#[test]
fn cloud_event_with_base64_data() {
    let entries = vec![
        text("data_base64", "aGVsbG8="),
        text("datacontenttype", "application/octet-stream"),
        text("specversion", "1.1"),
    ];
    let event = parse_cloud_event(&entries).unwrap();
    assert_eq!(event.data, b"hello".to_vec());
    assert_eq!(event.data_content_type, Some(s("application/octet-stream")));
    assert_eq!(event.spec_version, "1.1");
}

#[test]
fn cloud_event_string_data_is_its_text() {
    let entries = vec![text("data", "plain text"), text("datacontenttype", "text/plain")];
    let event = parse_cloud_event(&entries).unwrap();
    assert_eq!(event.data, b"plain text".to_vec());
    assert_eq!(event.data_content_type, Some(s("text/plain")));
}

#[test]
fn cloud_event_without_data() {
    let event = parse_cloud_event(&vec![text("id", "x"), other("path", "3")]).unwrap();
    assert_eq!(event.data, Vec::<u8>::new());
    assert_eq!(event.data_content_type, None);
    assert_eq!(event.path, None);
}

#[test]
fn cloud_event_bad_base64_is_an_error() {
    assert_eq!(
        parse_cloud_event(&vec![text("data_base64", "!!!!")]).map(|e| e.data),
        Err(s("invalid base64 character: 0x21"))
    );
}

#[test]
fn cloud_event_non_string_base64_falls_back_to_data() {
    let entries = vec![other("data_base64", "7"), other("data", "[1,2]")];
    let event = parse_cloud_event(&entries).unwrap();
    assert_eq!(event.data, b"[1,2]".to_vec());
}

#[test]
fn json_payload_bytes() {
    assert_eq!(json_bytes(&JsonField::Text(s("hi"))), b"hi".to_vec());
    assert_eq!(json_bytes(&JsonField::Other(s("{\"a\":1}"))), b"{\"a\":1}".to_vec());
}

#[test]
fn grpc_dispatch_by_path() {
    let body = vec![0, 0, 0, 0, 2, 9, 9];
    match dispatch("/dapr.proto.runtime.v1.AppCallback/OnInvoke", &body) {
        Ok((method, payload)) => {
            assert_eq!(method, CallbackMethod::OnInvoke);
            assert_eq!(payload, vec![9, 9]);
        }
        Err(_) => panic!("expected a method"),
    }
    match dispatch("/dapr.proto.runtime.v1.AppCallbackHealthCheck/HealthCheck", &[]) {
        Ok((method, payload)) => {
            assert_eq!(method, CallbackMethod::HealthCheck);
            assert!(payload.is_empty());
        }
        Err(_) => panic!("expected a method"),
    }
}

#[test]
fn grpc_dispatch_errors() {
    let e = dispatch("/x.Y/Z", &[]).err().unwrap();
    assert_eq!(e.code, GRPC_UNIMPLEMENTED);
    assert_eq!(e.message, "unimplemented method: /x.Y/Z");
    let e = dispatch("/dapr.proto.runtime.v1.AppCallback/OnInvoke", &[1, 0, 0, 0, 0]).err().unwrap();
    assert_eq!(e.code, GRPC_INTERNAL);
    assert_eq!(e.message, "compressed gRPC frames are not supported");
}

#[test]
fn grpc_invoke_reply() {
    let headers = vec![(s("Content-Type"), s("text/plain"))];
    assert_eq!(invoke_reply(200, &headers, s("application/json")).ok(), Some(s("text/plain")));
    assert_eq!(invoke_reply(204, &vec![], s("application/json")).ok(), Some(s("application/json")));
    let e = invoke_reply(404, &headers, s("x")).err().unwrap();
    assert_eq!(e.code, GRPC_INTERNAL);
    assert_eq!(e.message, "app returned status 404");
}

#[test]
fn answer_codes_for_both_transports() {
    assert_eq!(topic_status_text(TopicEventResponse::Retry), "RETRY");
    assert_eq!(topic_status_number(TopicEventResponse::Drop), 2);
    assert_eq!(concurrency_text(BindingConcurrency::Parallel), "parallel");
    assert_eq!(concurrency_number(BindingConcurrency::Sequential), 0);
}

#[test]
fn every_verb_survives_the_proto_number() {
    let verbs = [
        HttpVerb::Get,
        HttpVerb::Post,
        HttpVerb::Put,
        HttpVerb::Delete,
        HttpVerb::Patch,
        HttpVerb::Head,
        HttpVerb::Options,
    ];
    for verb in verbs {
        assert_eq!(verb_from_proto(verb_pb(verb)), verb);
    }
}

#[test]
fn header_names_differing_in_case_find_the_same_value() {
    let headers = vec![
        ("X-Trace".to_string(), "first".to_string()),
        ("x-trace".to_string(), "second".to_string()),
    ];
    assert_eq!(header(&headers, "X-TRACE"), Some("first".to_string()));
    assert_eq!(header(&headers, "x-trace"), Some("first".to_string()));
}
