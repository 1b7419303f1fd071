use dapr_components::channel::{app_error_reply, channel_reply, text_reply, Outcome, Reply};
use dapr_components::cloud_event::{parse_cloud_event_body, read_cloud_event};
use dapr_components::inbound::TopicEventResponse;

fn parts(r: Reply) -> (u16, String, String) {
    (r.status, r.content_type, String::from_utf8(r.body).unwrap())
}

fn triple(status: u16, content_type: &str, body: &str) -> (u16, String, String) {
    (status, content_type.to_string(), body.to_string())
}

#[test]
fn health_replies() {
    assert_eq!(parts(channel_reply(Outcome::Health(Ok(())))), triple(200, "text/plain", "ok"));
    assert_eq!(
        parts(channel_reply(Outcome::Health(Err("\"disk full\"".to_string())))),
        triple(500, "text/plain", "unhealthy: \"disk full\"")
    );
}

#[test]
fn done_replies() {
    assert_eq!(parts(channel_reply(Outcome::Done(Ok(())))), triple(200, "text/plain", ""));
    assert_eq!(
        parts(channel_reply(Outcome::Done(Err("job failed".to_string())))),
        triple(500, "application/json", "{\"errorCode\":\"ERR_APP\",\"message\":\"job failed\"}")
    );
}

#[test]
fn app_error_message_is_escaped_as_json() {
    assert_eq!(
        parts(app_error_reply("say \"hi\"\n\\ \u{1}")),
        triple(
            500,
            "application/json",
            "{\"errorCode\":\"ERR_APP\",\"message\":\"say \\\"hi\\\"\\n\\\\ \\u0001\"}"
        )
    );
}

#[test]
fn topic_replies() {
    assert_eq!(
        parts(channel_reply(Outcome::Topic(Some(TopicEventResponse::Retry)))),
        triple(200, "application/json", "{\"status\":\"RETRY\"}")
    );
    assert_eq!(
        parts(channel_reply(Outcome::Topic(None))),
        triple(200, "application/json", "{\"status\":\"DROP\"}")
    );
}

#[test]
fn document_and_actor_replies() {
    assert_eq!(
        parts(channel_reply(Outcome::Document(Ok("[]".to_string())))),
        triple(200, "application/json", "[]")
    );
    assert_eq!(
        parts(channel_reply(Outcome::Returned(Ok(b"{\"n\":1}".to_vec())))),
        triple(200, "application/json", "{\"n\":1}")
    );
    assert_eq!(
        parts(channel_reply(Outcome::Returned(Err("no".to_string())))),
        triple(500, "application/json", "{\"errorCode\":\"ERR_APP\",\"message\":\"no\"}")
    );
    assert_eq!(parts(text_reply(404, "gone")), triple(404, "text/plain", "gone"));
}

#[test]
fn cloud_event_body_is_read_from_json() {
    let body = br#"{"id":"1","topic":"orders","data":{"a":1},"custom":7}"#;
    let event = parse_cloud_event_body(body).unwrap();
    assert_eq!(event.id, "1");
    assert_eq!(event.topic, "orders");
    assert_eq!(event.spec_version, "1.0");
    assert_eq!(event.data, b"{\"a\":1}".to_vec());
    assert_eq!(event.data_content_type, Some("application/json".to_string()));
    assert_eq!(event.extensions, vec![("custom".to_string(), "7".to_string())]);
}

#[test]
fn cloud_event_body_errors() {
    assert_eq!(
        parse_cloud_event_body(b"[1]").map(|e| e.id),
        Err("CloudEvent is not a JSON object".to_string())
    );
    let invalid = parse_cloud_event_body(b"{").map(|e| e.id).unwrap_err();
    assert!(invalid.starts_with("invalid CloudEvent JSON: "));
}

#[test]
fn cloud_event_body_with_base64_payload() {
    let body = br#"{"data_base64":"aGk=","datacontenttype":"text/plain"}"#;
    let event = read_cloud_event(body).unwrap().unwrap();
    assert_eq!(event.data, b"hi".to_vec());
    assert_eq!(event.data_content_type, Some("text/plain".to_string()));
    assert!(read_cloud_event(br#"{"data_base64":"===="}"#).is_none());
}
