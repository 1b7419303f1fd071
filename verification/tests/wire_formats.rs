use dapr_components::base64::base64_decode;
use dapr_components::framing::{frame, unframe};
use dapr_components::percent::{decode, seg};
use dapr_components::protobuf::{
    pack_protojson_wrapper, BoolValue, BytesValue, FloatingKind, Int32Value, Int64Value, Packing,
    StringValue, UInt32Value, UInt64Value,
};
use dapr_components::protobuf::unpack_json;
use dapr_components::failure::Error;

#[test]
fn frame_then_unframe_gives_the_message_back() {
    let message = b"hello grpc".to_vec();
    let framed = frame(&message);
    assert_eq!(&framed[..5], &[0, 0, 0, 0, 10]);
    assert_eq!(unframe(&framed), Ok(message));
}

#[test]
fn frame_of_empty_message_is_five_header_bytes() {
    assert_eq!(frame(&[]), vec![0, 0, 0, 0, 0]);
}

#[test]
fn unframe_empty_body_is_empty_message() {
    assert_eq!(unframe(&[]), Ok(Vec::new()));
}

#[test]
fn unframe_rejects_short_header() {
    assert_eq!(
        unframe(&[0, 0, 1]),
        Err("gRPC frame shorter than its 5-byte header".to_string())
    );
}

#[test]
fn unframe_rejects_compressed_frames() {
    assert_eq!(
        unframe(&[1, 0, 0, 0, 0]),
        Err("compressed gRPC frames are not supported".to_string())
    );
}

#[test]
fn unframe_rejects_length_past_body() {
    assert_eq!(
        unframe(&[0, 0, 0, 0, 4, 1, 2]),
        Err("gRPC frame length exceeds body".to_string())
    );
}

#[test]
fn unframe_ignores_trailing_bytes() {
    assert_eq!(unframe(&[0, 0, 0, 0, 2, 7, 8, 9]), Ok(vec![7, 8]));
}

#[test]
fn unframe_reads_big_endian_length() {
    let mut body = vec![0, 0, 0, 1, 0];
    body.extend(std::iter::repeat(5u8).take(256));
    assert_eq!(unframe(&body).unwrap().len(), 256);
}

#[test]
fn base64_decodes_padded_text() {
    assert_eq!(base64_decode("aGVsbG8="), Ok(b"hello".to_vec()));
    assert_eq!(base64_decode("aGVsbG8gd29ybGQ="), Ok(b"hello world".to_vec()));
}

#[test]
fn base64_ignores_ascii_whitespace() {
    assert_eq!(base64_decode(" aGVs\nbG8=\t"), Ok(b"hello".to_vec()));
}

#[test]
fn base64_double_padding_yields_one_byte() {
    assert_eq!(base64_decode("QQ=="), Ok(b"A".to_vec()));
}

#[test]
fn base64_short_final_group_keeps_three_bytes() {
    assert_eq!(base64_decode("QQ"), Ok(vec![0, 4, 16]));
}

#[test]
fn base64_empty_input_is_empty() {
    assert_eq!(base64_decode(""), Ok(Vec::new()));
}

#[test]
fn base64_reports_first_bad_character_in_hex() {
    assert_eq!(
        base64_decode("aGV*bG8="),
        Err("invalid base64 character: 0x2a".to_string())
    );
    assert_eq!(
        base64_decode("aG\u{1}="),
        Err("invalid base64 character: 0x1".to_string())
    );
}

#[test]
fn base64_url_safe_characters_are_rejected() {
    assert_eq!(
        base64_decode("a-_b"),
        Err("invalid base64 character: 0x2d".to_string())
    );
}

#[test]
fn seg_percent_encodes_reserved_bytes() {
    assert_eq!(seg("a b/c"), "a%20b%2Fc");
    assert_eq!(seg("AZaz09-._~"), "AZaz09-._~");
    assert_eq!(seg("é"), "%C3%A9");
    assert_eq!(seg("?&=#"), "%3F%26%3D%23");
}

#[test]
fn decode_inverts_seg() {
    for text in ["order 42/x", "é€", "100%", "", "a+b"] {
        assert_eq!(decode(&seg(text)), text);
    }
}

#[test]
fn decode_keeps_plus_and_lone_percent() {
    assert_eq!(decode("a+b"), "a+b");
    assert_eq!(decode("100%"), "100%");
    assert_eq!(decode("%4"), "%4");
    assert_eq!(decode("%zz"), "%zz");
    assert_eq!(decode("%41%42"), "AB");
}

#[test]
fn decode_keeps_segment_when_not_utf8() {
    assert_eq!(decode("%FF"), "%FF");
}

#[test]
fn int64_value_encoding() {
    assert_eq!(Int64Value { value: 0 }.encode_to_vec(), Vec::<u8>::new());
    assert_eq!(Int64Value { value: 150 }.encode_to_vec(), vec![8, 0x96, 0x01]);
    let mut minus_one = vec![8];
    minus_one.extend([0xff; 9]);
    minus_one.push(0x01);
    assert_eq!(Int64Value { value: -1 }.encode_to_vec(), minus_one);
}

#[test]
fn int32_value_sign_extends_negative_values() {
    let mut minus_one = vec![8];
    minus_one.extend([0xff; 9]);
    minus_one.push(0x01);
    assert_eq!(Int32Value { value: -1 }.encode_to_vec(), minus_one);
    assert_eq!(Int32Value { value: 1 }.encode_to_vec(), vec![8, 1]);
}

#[test]
fn unsigned_value_encodings() {
    assert_eq!(UInt64Value { value: 300 }.encode_to_vec(), vec![8, 0xac, 0x02]);
    assert_eq!(UInt32Value { value: 127 }.encode_to_vec(), vec![8, 0x7f]);
    assert_eq!(UInt32Value { value: 0 }.encode_to_vec(), Vec::<u8>::new());
}

#[test]
fn bool_string_bytes_value_encodings() {
    assert_eq!(BoolValue { value: true }.encode_to_vec(), vec![8, 1]);
    assert_eq!(BoolValue { value: false }.encode_to_vec(), Vec::<u8>::new());
    assert_eq!(
        StringValue { value: "hi".to_string() }.encode_to_vec(),
        vec![10, 2, b'h', b'i']
    );
    assert_eq!(StringValue { value: String::new() }.encode_to_vec(), Vec::<u8>::new());
    assert_eq!(BytesValue { value: vec![1, 2, 3] }.encode_to_vec(), vec![10, 3, 1, 2, 3]);
}

fn packed(url: &str, text: Option<&str>, rendered: &str) -> Option<Result<(String, Packing), Error>> {
    pack_protojson_wrapper(
        Some(url.to_string()),
        text.map(str::to_string),
        rendered.to_string(),
    )
}

#[test]
fn pack_without_type_is_none() {
    assert!(pack_protojson_wrapper(None, None, "null".to_string()).is_none());
}

#[test]
fn pack_int64_from_string_and_number() {
    let url = "type.googleapis.com/google.protobuf.Int64Value";
    assert_eq!(
        packed(url, Some("100"), "\"100\""),
        Some(Ok((url.to_string(), Packing::Encoded(vec![8, 100]))))
    );
    assert_eq!(
        packed(url, None, "100"),
        Some(Ok((url.to_string(), Packing::Encoded(vec![8, 100]))))
    );
}

#[test]
fn pack_rejects_out_of_range_and_non_integers() {
    let url = "type.googleapis.com/google.protobuf.Int32Value";
    assert_eq!(
        packed(url, Some("4294967296"), "\"4294967296\""),
        Some(Err(Error::InvalidArgument(
            "@type google.protobuf.Int32Value: invalid value \"4294967296\"".to_string()
        )))
    );
    assert_eq!(
        packed("x/google.protobuf.UInt64Value", None, "-1"),
        Some(Err(Error::InvalidArgument(
            "@type google.protobuf.UInt64Value: invalid value -1".to_string()
        )))
    );
    assert_eq!(
        packed("google.protobuf.UInt32Value", None, "1.5"),
        Some(Err(Error::InvalidArgument(
            "@type google.protobuf.UInt32Value: invalid value 1.5".to_string()
        )))
    );
}

#[test]
fn pack_accepts_plus_sign_and_extremes() {
    assert_eq!(
        packed("google.protobuf.UInt32Value", Some("+7"), "\"+7\""),
        Some(Ok(("google.protobuf.UInt32Value".to_string(), Packing::Encoded(vec![8, 7]))))
    );
    let min = packed("google.protobuf.Int64Value", Some("-9223372036854775808"), "x");
    let mut expected = vec![8];
    expected.extend([0x80; 9]);
    expected.push(0x01);
    assert_eq!(
        min,
        Some(Ok(("google.protobuf.Int64Value".to_string(), Packing::Encoded(expected))))
    );
}

#[test]
fn pack_bool_and_string_wrappers() {
    let b = "type.googleapis.com/google.protobuf.BoolValue";
    assert_eq!(packed(b, None, "true"), Some(Ok((b.to_string(), Packing::Encoded(vec![8, 1])))));
    assert_eq!(packed(b, None, "false"), Some(Ok((b.to_string(), Packing::Encoded(vec![])))));
    assert_eq!(
        packed(b, Some("true"), "\"true\""),
        Some(Err(Error::InvalidArgument(
            "@type google.protobuf.BoolValue: invalid value".to_string()
        )))
    );
    let s = "type.googleapis.com/google.protobuf.StringValue";
    assert_eq!(
        packed(s, Some("ok"), "\"ok\""),
        Some(Ok((s.to_string(), Packing::Encoded(vec![10, 2, b'o', b'k']))))
    );
    assert_eq!(
        packed(s, None, "3"),
        Some(Err(Error::InvalidArgument(
            "@type google.protobuf.StringValue: invalid value".to_string()
        )))
    );
}

#[test]
fn pack_floating_kinds_are_left_to_the_caller() {
    let d = "type.googleapis.com/google.protobuf.DoubleValue";
    assert_eq!(
        packed(d, None, "1.5"),
        Some(Ok((d.to_string(), Packing::Floating(FloatingKind::DoubleValue))))
    );
    assert_eq!(
        packed("google.protobuf.Value", None, "{}"),
        Some(Ok(("google.protobuf.Value".to_string(), Packing::Floating(FloatingKind::Value))))
    );
}

#[test]
fn pack_unsupported_type() {
    assert_eq!(
        packed("type.googleapis.com/google.protobuf.Timestamp", None, "null"),
        Some(Err(Error::InvalidArgument(
            "@type google.protobuf.Timestamp is not supported here".to_string()
        )))
    );
}

#[test]
fn unpack_string_value_unwraps_the_text() {
    let bytes = StringValue { value: "ok".to_string() }.encode_to_vec();
    assert_eq!(bytes, vec![10, 2, b'o', b'k']);
    assert_eq!(unpack_json("type.googleapis.com/google.protobuf.StringValue", &bytes, None), "ok");
}

#[test]
fn unpack_bytes_value_unwraps_the_bytes() {
    let bytes = vec![10, 3, b'a', b'b', b'c'];
    assert_eq!(unpack_json("type.googleapis.com/google.protobuf.BytesValue", &bytes, None), "abc");
}

#[test]
fn unpack_value_uses_its_json_rendering() {
    let rendered = Some("{\"a\":1}".to_string());
    assert_eq!(
        unpack_json("type.googleapis.com/google.protobuf.Value", &[1, 2, 3], rendered),
        "{\"a\":1}"
    );
}

#[test]
fn unpack_value_without_rendering_falls_back_to_raw_bytes() {
    assert_eq!(unpack_json("type.googleapis.com/google.protobuf.Value", b"raw", None), "raw");
}

#[test]
fn unpack_other_types_give_the_raw_bytes_lossily() {
    assert_eq!(unpack_json("type.googleapis.com/my.Custom", b"{\"x\":true}", None), "{\"x\":true}");
    assert_eq!(unpack_json("type.googleapis.com/my.Custom", &[0x66, 0xff, 0x6f], None), "f\u{fffd}o");
}

#[test]
fn unpack_undecodable_string_value_falls_back_to_raw_bytes() {
    // a length prefix that runs past the end does not decode
    let bytes = vec![10, 9, b'x'];
    assert_eq!(
        unpack_json("type.googleapis.com/google.protobuf.StringValue", &bytes, None),
        "\n\tx"
    );
}

#[test]
fn standard_base64_with_whitespace_reads_back() {
    assert_eq!(base64_decode("aGVs\nbG8g d29y\tbGQ="), Ok(b"hello world".to_vec()));
    assert_eq!(base64_decode(" QQ== "), Ok(b"A".to_vec()));
    assert_eq!(base64_decode("QUJD\r\n"), Ok(b"ABC".to_vec()));
    assert_eq!(base64_decode(""), Ok(Vec::new()));
}
