use dapr_components::conversation::{
    converse_body, converse_options_valid, converse_request_body, converse_results, ConversationInput,
    ConversationMessage, ConversationOptionsPlain, ConversationRole, Message, Participant, RequestInput,
    RequestOptions, Tool, ToolCall,
};
use dapr_components::failure::{Error, ErrorKind};
use dapr_components::grpc::{check_invoke_headers, invoke_target};
use dapr_components::smoke::{
    after_read_binary, after_read_deleted, after_read_metadata, after_save_binary, after_save_stale,
    smoke_binary, SmokeAction,
};
use dapr_components::replies::{reminder_body, Schedule};
use dapr_components::runtime_doc::metadata_app_id;

fn s(t: &str) -> String {
    t.to_string()
}

fn plain_options(parameters: Option<String>) -> ConversationOptionsPlain {
    ConversationOptionsPlain {
        context_id: Some(s("c")),
        parameters,
        metadata: vec![(s("b"), s("2")), (s("a"), s("1"))],
        scrub_pii: None,
    }
}

fn simple_inputs() -> Vec<ConversationInput> {
    vec![ConversationInput {
        messages: vec![ConversationMessage { role: ConversationRole::User, content: s("hi") }],
        scrub_pii: Some(true),
    }]
}

#[test]
fn simple_converse_body() {
    let body = converse_body(&simple_inputs(), &Some(plain_options(Some(s("{\"k\": 1}")))), Some(s("0.5")));
    assert_eq!(
        body,
        Ok(s("{\"contextId\":\"c\",\"inputs\":[{\"messages\":[{\"ofUser\":{\"content\":[{\"text\":\"hi\"}]}}],\
\"scrubPii\":true}],\"metadata\":{\"a\":\"1\",\"b\":\"2\"},\"parameters\":{\"k\":1},\"temperature\":0.5}"))
    );
    let bare = converse_body(&Vec::new(), &None, None);
    assert_eq!(bare, Ok(s("{\"inputs\":[]}")));
}

#[test]
fn simple_converse_body_rejects_parameters_that_are_not_json() {
    match converse_body(&simple_inputs(), &Some(plain_options(Some(s("oops")))), None) {
        Err(Error::InvalidArgument(message)) => assert!(message.starts_with("parameters is not valid JSON: ")),
        other => panic!("unexpected {other:?}"),
    }
}

#[test]
fn results_flatten_the_choices() {
    let results = converse_results(vec![
        vec![(Some(s("stop")), Some(s("a"))), (None, None)],
        Vec::new(),
        vec![(None, Some(s("b")))],
    ]);
    let seen: Vec<(String, Option<String>)> = results.into_iter().map(|r| (r.content, r.finish_reason)).collect();
    assert_eq!(seen, vec![(s("a"), Some(s("stop"))), (s(""), None), (s("b"), None)]);
}

fn full_options() -> RequestOptions {
    RequestOptions {
        context_id: None,
        parameters: None,
        metadata: Vec::new(),
        scrub_pii: None,
        tools: vec![Tool { name: s("f"), description: Some(s("d")), parameters: Some(s("{\"type\":\"object\"}")) }],
        tool_choice: Some(s("auto")),
        response_format: Some(s("{ }")),
        prompt_cache_retention: Some(s("24h")),
    }
}

#[test]
fn full_converse_request_body() {
    let inputs = vec![RequestInput {
        messages: vec![
            Message::System(Participant { name: Some(s("s")), content: vec![s("be nice")] }),
            Message::Assistant {
                name: None,
                content: vec![s("ok")],
                tool_calls: vec![ToolCall { id: Some(s("1")), name: s("f"), arguments: s("{}") }],
            },
            Message::Tool { tool_id: None, name: s("f"), content: vec![s("r")] },
        ],
        scrub_pii: None,
    }];
    assert_eq!(
        converse_request_body(&inputs, &Some(full_options()), None),
        Some(s("{\"inputs\":[{\"messages\":[{\"ofSystem\":{\"content\":[{\"text\":\"be nice\"}],\"name\":\"s\"}},\
{\"ofAssistant\":{\"content\":[{\"text\":\"ok\"}],\"toolCalls\":[{\"function\":{\"arguments\":\"{}\",\"name\":\"f\"},\"id\":\"1\"}]}},\
{\"ofTool\":{\"content\":[{\"text\":\"r\"}],\"name\":\"f\"}}]}],\"promptCacheRetention\":\"24h\",\"responseFormat\":{},\
\"toolChoice\":\"auto\",\"tools\":[{\"function\":{\"description\":\"d\",\"name\":\"f\",\"parameters\":{\"type\":\"object\"}}}]}"))
    );
}

#[test]
fn full_converse_request_body_needs_json_texts() {
    let mut bad_format = full_options();
    bad_format.response_format = Some(s("not json"));
    assert_eq!(converse_request_body(&Vec::new(), &Some(bad_format), None), None);
    let mut bad_tool = full_options();
    bad_tool.tools[0].parameters = Some(s("nope"));
    assert_eq!(converse_request_body(&Vec::new(), &Some(bad_tool), None), None);
}

#[test]
fn grpc_conversation_options_checks() {
    assert!(converse_options_valid(&full_options()));
    let mut not_object = full_options();
    not_object.parameters = Some(s("[1]"));
    assert!(!converse_options_valid(&not_object));
    let mut bad_retention = full_options();
    bad_retention.prompt_cache_retention = Some(s("soon"));
    assert!(!converse_options_valid(&bad_retention));
    let mut bad_tool = full_options();
    bad_tool.tools[0].parameters = Some(s("1"));
    assert!(!converse_options_valid(&bad_tool));
}

#[test]
fn reminder_and_timer_bodies() {
    let schedule = Schedule {
        due_time: Some(s("1m")),
        period: None,
        ttl: None,
        data: Some(s("{\"a\": 1}")),
        callback: Some(s("cb")),
    };
    assert_eq!(reminder_body(&schedule, true), Some(s("{\"callback\":\"cb\",\"data\":{\"a\":1},\"dueTime\":\"1m\"}")));
    assert_eq!(reminder_body(&schedule, false), Some(s("{\"data\":{\"a\":1},\"dueTime\":\"1m\"}")));
    let bad = Schedule { due_time: None, period: None, ttl: None, data: Some(s("x")), callback: None };
    assert_eq!(reminder_body(&bad, false), None);
}

#[test]
fn app_id_from_metadata() {
    assert_eq!(metadata_app_id("{\"id\":\"app\",\"x\":1}"), Ok(s("app")));
    assert_eq!(metadata_app_id("{\"id\": 5}"), Err(s("metadata has no id: {\"id\":5}")));
    assert_eq!(metadata_app_id("[]"), Err(s("metadata has no id: []")));
    assert!(metadata_app_id("nope").unwrap_err().starts_with("metadata is not JSON: "));
}

#[test]
fn invocation_target_and_header_checks() {
    assert_eq!(invoke_target("//a/b", Some(s("x=1"))), (s("a/b"), s("x=1")));
    assert_eq!(invoke_target("m", None), (s("m"), s("")));
    assert_eq!(check_invoke_headers(&vec![(s("X-Trace"), s("v"))]), Ok(()));
    match check_invoke_headers(&vec![(s("ok"), s("v")), (s("bad name"), s("v"))]) {
        Err(Error::InvalidArgument(m)) => assert!(m.starts_with("header name \"bad name\" is not valid here: ")),
        other => panic!("unexpected {other:?}"),
    }
    match check_invoke_headers(&vec![(s("x"), s("a\u{1}b"))]) {
        Err(Error::InvalidArgument(m)) => assert!(m.starts_with("header \"x\" has a non-ascii value: ")),
        other => panic!("unexpected {other:?}"),
    }
}

#[test]
fn smoke_steps() {
    assert!(matches!(after_save_binary(Ok(())), SmokeAction::ReadBinary));
    let read = Some((smoke_binary(), Some(s("e1")), s("[..]")));
    assert!(matches!(after_read_binary(Ok(read)), SmokeAction::SaveWithEtag(e) if e == "e1"));
    match after_read_binary(Ok(Some((b"x".to_vec(), None, s("[120]"))))) {
        SmokeAction::Finish(Err(m)) => assert_eq!(m, "binary value did not roundtrip: wrote [0, 255, 159, 146, 150, 34, 123], read [120]"),
        _ => panic!("expected a failure"),
    }
    match after_read_binary(Ok(Some((smoke_binary(), None, s(""))))) {
        SmokeAction::Finish(Err(m)) => assert_eq!(m, "store returned no etag"),
        _ => panic!("expected a failure"),
    }
    assert!(matches!(after_save_stale(Some(ErrorKind::Aborted), s("Err(..)")), SmokeAction::Delete));
    match after_save_stale(None, s("Ok(())")) {
        SmokeAction::Finish(Err(m)) => assert_eq!(m, "stale etag write was not rejected: Ok(())"),
        _ => panic!("expected a failure"),
    }
    assert!(matches!(after_read_deleted(Ok(false)), SmokeAction::ReadMetadata));
    match after_read_metadata(Ok(s("{\"id\":\"demo\"}"))) {
        SmokeAction::Finish(Ok(id)) => assert_eq!(id, "demo"),
        _ => panic!("expected the app id"),
    }
}
