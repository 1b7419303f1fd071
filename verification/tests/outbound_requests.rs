use dapr_components::crypto::{collect_payload, decrypt_headers, encrypt_headers, EncryptOptions};
use dapr_components::grpc::{is_transport_header, opt_string, response_headers, split_invoke_headers, verb_pb};
use dapr_components::inbound::{method_of, HttpVerb, Method};
use dapr_components::metadata::{
    configuration_item, merged_metadata, metadata_map, metadata_pairs, secret_pairs, sort_by_key,
    MetadataMap,
};
use dapr_components::query::{api_path, invoke_path, push_key_query, push_metadata_query, with_query};
use dapr_components::sidecar::{after_failed_send, grpc_endpoint, healthy, sidecar_unreachable, Retry, Sidecar};
use dapr_components::state::{
    concurrency_pb, concurrency_str, consistency_pb, consistency_str, delete_query, get_query,
    Concurrency, Consistency, StateOptions,
};
use dapr_components::failure::Error;

fn s(text: &str) -> String {
    text.to_string()
}

fn pairs(items: &[(&str, &str)]) -> Vec<(String, String)> {
    items.iter().map(|(k, v)| (s(k), s(v))).collect()
}

#[test]
fn with_query_joins_parts() {
    assert_eq!(with_query(s("/v1.0/state/s"), vec![]), "/v1.0/state/s");
    assert_eq!(with_query(s("/p"), vec![s("a=1")]), "/p?a=1");
    assert_eq!(with_query(s("/p"), vec![s("a=1"), s("b=2"), s("c=3")]), "/p?a=1&b=2&c=3");
}

#[test]
fn metadata_query_parameters_are_encoded() {
    let mut parts = vec![s("consistency=strong")];
    push_metadata_query(&mut parts, &pairs(&[("ttlInSeconds", "60"), ("a b", "x&y")]));
    assert_eq!(
        parts,
        vec![s("consistency=strong"), s("metadata.ttlInSeconds=60"), s("metadata.a%20b=x%26y")]
    );
}

#[test]
fn configuration_key_parameters() {
    let mut parts = Vec::new();
    push_key_query(&mut parts, &vec![s("k1"), s("k 2")]);
    assert_eq!(parts, vec![s("key=k1"), s("key=k%202")]);
}

#[test]
fn api_paths_encode_each_segment() {
    assert_eq!(
        api_path("/v1.0/state", &vec![s("my store"), s("key/1")], ""),
        "/v1.0/state/my%20store/key%2F1"
    );
    assert_eq!(api_path("/v1.0/state", &vec![s("s")], "/bulk"), "/v1.0/state/s/bulk");
    assert_eq!(api_path("/v1.0/metadata", &vec![], ""), "/v1.0/metadata");
}

#[test]
fn invoke_path_keeps_method_path_and_query() {
    assert_eq!(
        invoke_path("order processor", "//orders/1", Some(s("a=1"))),
        "/v1.0/invoke/order%20processor/method/orders/1?a=1"
    );
    assert_eq!(invoke_path("app", "m", Some(String::new())), "/v1.0/invoke/app/method/m");
    assert_eq!(invoke_path("app", "m", None), "/v1.0/invoke/app/method/m");
}

#[test]
fn sidecar_resolution() {
    let d = Sidecar::resolve(None, None, None);
    assert_eq!(d.base, "http://127.0.0.1:3500");
    assert_eq!(d.api_token, None);
    let p = Sidecar::resolve(Some(String::new()), Some(s("3600")), Some(String::new()));
    assert_eq!(p.base, "http://127.0.0.1:3600");
    assert_eq!(p.api_token, None);
    let e = Sidecar::resolve(Some(s("http://dapr:3500//")), Some(s("1")), Some(s("tok")));
    assert_eq!(e.base, "http://dapr:3500");
    assert_eq!(e.api_token, Some(s("tok")));
    assert_eq!(e.url("/v1.0/healthz"), "http://dapr:3500/v1.0/healthz");
}

#[test]
fn request_headers_put_the_token_first() {
    let with = Sidecar { base: s("b"), api_token: Some(s("t")) };
    assert_eq!(
        with.request_headers(&pairs(&[("content-type", "application/json")])),
        pairs(&[("dapr-api-token", "t"), ("content-type", "application/json")])
    );
    let without = Sidecar { base: s("b"), api_token: None };
    assert_eq!(without.request_headers(&vec![]), Vec::<(String, String)>::new());
}

#[test]
fn grpc_endpoint_resolution() {
    assert_eq!(grpc_endpoint(None, None), "http://127.0.0.1:50001");
    assert_eq!(grpc_endpoint(None, Some(s("50002"))), "http://127.0.0.1:50002");
    assert_eq!(grpc_endpoint(Some(s("dapr:50001")), None), "http://dapr:50001");
    assert_eq!(grpc_endpoint(Some(s("https://dapr:443")), None), "https://dapr:443");
}

#[test]
fn retry_schedule() {
    assert_eq!(after_failed_send(1), Retry::After(50));
    assert_eq!(after_failed_send(2), Retry::After(100));
    assert_eq!(after_failed_send(3), Retry::After(150));
    assert_eq!(after_failed_send(4), Retry::GiveUp);
    assert_eq!(
        sidecar_unreachable("http://127.0.0.1:3500", 4, "connection refused"),
        Error::Unavailable(s(
            "cannot reach the Dapr sidecar at http://127.0.0.1:3500 after 4 attempts: connection refused"
        ))
    );
}

#[test]
fn health_is_any_2xx() {
    assert!(healthy(204));
    assert!(!healthy(199));
    assert!(!healthy(500));
}

#[test]
fn state_option_names_and_numbers() {
    assert_eq!(concurrency_str(Concurrency::Unspecified), None);
    assert_eq!(concurrency_str(Concurrency::FirstWrite), Some("first-write"));
    assert_eq!(consistency_str(Consistency::Strong), Some("strong"));
    assert_eq!(concurrency_pb(Concurrency::LastWrite), 2);
    assert_eq!(consistency_pb(Consistency::Eventual), 1);
}

#[test]
fn state_get_and_delete_queries() {
    assert_eq!(
        get_query(Some(Consistency::Eventual), &pairs(&[("k", "v")])),
        vec![s("consistency=eventual"), s("metadata.k=v")]
    );
    assert_eq!(get_query(Some(Consistency::Unspecified), &vec![]), Vec::<String>::new());
    let options = StateOptions { concurrency: Concurrency::FirstWrite, consistency: Consistency::Strong };
    assert_eq!(
        delete_query(Some(options), &vec![]),
        vec![s("concurrency=first-write"), s("consistency=strong")]
    );
    assert_eq!(delete_query(None, &pairs(&[("a", "b")])), vec![s("metadata.a=b")]);
}

#[test]
fn metadata_map_later_pairs_win() {
    let m = metadata_map(&pairs(&[("a", "1"), ("b", "2"), ("a", "3")]));
    assert_eq!(m.len(), 2);
    assert_eq!(m.get("a"), Some(s("3")));
    assert_eq!(m.get("c"), None);
}

#[test]
fn item_metadata_overrides_request_metadata() {
    let m = merged_metadata(&pairs(&[("ttl", "10"), ("x", "r")]), &pairs(&[("ttl", "20")]));
    assert_eq!(m.get("ttl"), Some(s("20")));
    assert_eq!(m.get("x"), Some(s("r")));
}

#[test]
fn metadata_pairs_are_sorted_by_key() {
    let mut m = MetadataMap::new();
    m.insert(s("zeta"), s("1"));
    m.insert(s("alpha"), s("2"));
    m.insert(s("Beta"), s("3"));
    m.insert(s("alpha"), s("4"));
    assert_eq!(metadata_pairs(m), pairs(&[("Beta", "3"), ("alpha", "4"), ("zeta", "1")]));
    let secrets = metadata_map(&pairs(&[("b", "2"), ("a", "1")]));
    assert_eq!(secret_pairs(secrets), pairs(&[("a", "1"), ("b", "2")]));
}

#[test]
fn sort_by_key_orders_entries() {
    let sorted = sort_by_key(vec![(s("b"), 2), (s("c"), 3), (s("a"), 1), (s("ab"), 4)]);
    assert_eq!(sorted, vec![(s("a"), 1), (s("ab"), 4), (s("b"), 2), (s("c"), 3)]);
}

#[test]
fn configuration_items_sort_their_metadata() {
    let item = configuration_item(s("v"), s("1"), metadata_map(&pairs(&[("y", "1"), ("x", "2")])));
    assert_eq!(item.value, "v");
    assert_eq!(item.metadata, pairs(&[("x", "2"), ("y", "1")]));
}

#[test]
fn invocation_header_shaping() {
    let (ct, rest) = split_invoke_headers(&pairs(&[
        ("Content-Type", "a"),
        ("x-trace", "1"),
        ("content-type", "b"),
    ]));
    assert_eq!(ct, "b");
    assert_eq!(rest, pairs(&[("x-trace", "1")]));
    assert!(is_transport_header("grpc-status"));
    assert!(is_transport_header("content-type"));
    assert!(!is_transport_header("Content-Type"));
    assert_eq!(
        response_headers(&pairs(&[("grpc-encoding", "gzip"), ("x-app", "1"), ("content-type", "z")]), s("text/html")),
        pairs(&[("x-app", "1"), ("content-type", "text/html")])
    );
    assert_eq!(response_headers(&vec![], String::new()), Vec::<(String, String)>::new());
    assert_eq!(opt_string(String::new()), None);
    assert_eq!(opt_string(s("e")), Some(s("e")));
}

#[test]
fn verbs_and_methods() {
    assert_eq!(verb_pb(HttpVerb::Get), 1);
    assert_eq!(verb_pb(HttpVerb::Post), 3);
    assert_eq!(verb_pb(HttpVerb::Patch), 9);
    assert_eq!(method_of(HttpVerb::Options), Method::Options);
}

#[test]
fn crypto_headers() {
    let options = EncryptOptions {
        key_name: s("k"),
        key_wrap_algorithm: s("AES"),
        data_encryption_cipher: Some(s("aes-gcm")),
        omit_decryption_key_name: Some(true),
        decryption_key_name: Some(s("d")),
    };
    assert_eq!(
        encrypt_headers(options),
        pairs(&[
            ("content-type", "application/octet-stream"),
            ("dapr-key-name", "k"),
            ("dapr-key-wrap-algorithm", "AES"),
            ("dapr-data-encryption-cipher", "aes-gcm"),
            ("dapr-omit-decryption-key-name", "true"),
            ("dapr-decryption-key-name", "d"),
        ])
    );
    let plain = EncryptOptions {
        key_name: s("k"),
        key_wrap_algorithm: s("RSA"),
        data_encryption_cipher: None,
        omit_decryption_key_name: Some(false),
        decryption_key_name: None,
    };
    assert_eq!(encrypt_headers(plain).len(), 3);
    assert_eq!(
        decrypt_headers(Some(s("k"))),
        pairs(&[("content-type", "application/octet-stream"), ("dapr-key-name", "k")])
    );
}

#[test]
fn payload_chunks_are_ordered_by_sequence_number() {
    let chunks = vec![(2u64, b"c".to_vec()), (0, b"a".to_vec()), (1, b"b1".to_vec()), (1, b"b2".to_vec())];
    assert_eq!(collect_payload(chunks), b"ab1b2c".to_vec());
    assert_eq!(collect_payload(vec![]), Vec::<u8>::new());
    assert_eq!(collect_payload(vec![(7, b"only".to_vec())]), b"only".to_vec());
}

#[test]
fn sorted_metadata_survives_map_and_back() {
    let sorted = pairs(&[("Beta", "3"), ("alpha", "4"), ("zeta", "1")]);
    assert_eq!(metadata_pairs(metadata_map(&sorted)), sorted);
    assert_eq!(metadata_pairs(metadata_map(&Vec::new())), Vec::<(String, String)>::new());
}
