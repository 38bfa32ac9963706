use geetest::client::{
    decode_seccode, decode_status, encode_register_query, encode_status_query,
    encode_validate_body, Client,
};
use geetest::codec::{form_decode, push_pct_bytes, push_u32_dec, to_hex_lower};
use geetest::error::Error;
use geetest::models::{
    ClientRegisterResponse, ClientType, ClientValidateResponse, DigestMod, UserInfo,
};
use geetest::router::{
    encode_register_response, encode_validate_response, parse_validate_request, route, HttpReply,
    Route,
};

#[test]
fn hex_rendering() {
    assert_eq!(to_hex_lower(&[]), "");
    assert_eq!(to_hex_lower(&[0x00, 0xff, 0x1a]), "00ff1a");
}

#[test]
fn percent_coding_round_trip() {
    let bytes: Vec<u8> = vec![0x00, b' ', b'%', b'+', b'a', b'Z', 0xff, b'=', b'&'];
    let mut encoded = String::new();
    push_pct_bytes(&mut encoded, &bytes);
    assert_eq!(encoded, "%00%20%25%2BaZ%FF%3D%26");
    assert_eq!(form_decode(encoded.as_bytes()), Some(bytes));
}

#[test]
fn decimal_rendering() {
    let mut out = String::new();
    push_u32_dec(&mut out, 0);
    out.push(',');
    push_u32_dec(&mut out, 10);
    out.push(',');
    push_u32_dec(&mut out, 4294967295);
    assert_eq!(out, "0,10,4294967295");
}

#[test]
fn route_known_operations() {
    assert_eq!(route("GET", "/register"), Route::Register);
    assert_eq!(route("POST", "/validate"), Route::Validate);
}

// An unknown method/path pair routes nowhere, and its reply is a client
// error with an empty body.
#[test]
fn route_unknown_gets_empty_client_error() {
    assert_eq!(route("GET", "/foo"), Route::Unknown);
    assert_eq!(route("POST", "/register"), Route::Unknown);
    assert_eq!(route("GET", "/validate"), Route::Unknown);
    let reply = HttpReply::bad_request();
    assert_eq!(reply.status, 400);
    assert!(reply.body.is_empty());
}

#[test]
fn reply_constructors() {
    let ok = HttpReply::ok_json("{}".to_owned());
    assert_eq!(ok.status, 200);
    assert_eq!(ok.body, "{}");
    assert!(ok.json);
    let err = HttpReply::server_error();
    assert_eq!(err.status, 500);
    assert!(err.body.is_empty());
}

#[test]
fn parse_validate_body_plain() {
    let req =
        parse_validate_request(b"geetest_challenge=abc&geetest_validate=def&geetest_seccode=ghi")
            .expect("well-formed body");
    assert_eq!(req.challenge, "abc");
    assert_eq!(req.validate, "def");
    assert_eq!(req.seccode, "ghi");
}

#[test]
fn parse_validate_body_decodes_escapes() {
    let req = parse_validate_request(
        b"geetest_challenge=a%20b&geetest_validate=x%7Cy&geetest_seccode=c+d",
    )
    .expect("well-formed body");
    assert_eq!(req.challenge, "a b");
    assert_eq!(req.validate, "x|y");
    assert_eq!(req.seccode, "c d");
}

#[test]
fn parse_validate_body_last_value_wins() {
    let req = parse_validate_request(
        b"geetest_challenge=one&geetest_challenge=two&geetest_validate=v&geetest_seccode=s",
    )
    .expect("well-formed body");
    assert_eq!(req.challenge, "two");
}

#[test]
fn parse_validate_body_ignores_unknown_keys() {
    let req = parse_validate_request(
        b"other=1&geetest_challenge=c&geetest_validate=v&geetest_seccode=s&more=2",
    )
    .expect("well-formed body");
    assert_eq!(req.challenge, "c");
}

#[test]
fn parse_validate_body_missing_field_is_refused() {
    let r = parse_validate_request(b"geetest_challenge=c&geetest_validate=v");
    assert!(matches!(r, Err(Error::Query(_))));
}

#[test]
fn parse_validate_body_bad_percent_is_refused() {
    let r = parse_validate_request(b"geetest_challenge=%zz&geetest_validate=v&geetest_seccode=s");
    assert!(matches!(r, Err(Error::Query(_))));
}

#[test]
fn parse_validate_body_invalid_utf8_is_refused() {
    let r = parse_validate_request(b"geetest_challenge=%FF&geetest_validate=v&geetest_seccode=s");
    assert!(matches!(r, Err(Error::Query(_))));
}

#[test]
fn encode_register_reply_json() {
    let body = encode_register_response(&ClientRegisterResponse {
        success: true,
        new_captcha: true,
        challenge: "abc".to_owned(),
        captcha_id: "gt-1".to_owned(),
    });
    assert_eq!(
        body,
        "{\"success\":1,\"new_captcha\":true,\"challenge\":\"abc\",\"gt\":\"gt-1\"}"
    );
}

#[test]
fn encode_register_reply_escapes_strings() {
    let body = encode_register_response(&ClientRegisterResponse {
        success: false,
        new_captcha: true,
        challenge: "a\"b\\c\nd".to_owned(),
        captcha_id: "gt".to_owned(),
    });
    assert_eq!(
        body,
        "{\"success\":0,\"new_captcha\":true,\"challenge\":\"a\\\"b\\\\c\\nd\",\"gt\":\"gt\"}"
    );
}

#[test]
fn encode_validate_reply_success() {
    let body = encode_validate_response(&ClientValidateResponse::success());
    assert_eq!(body, "{\"result\":\"success\",\"version\":\"1.0\",\"msg\":null}");
}

#[test]
fn encode_validate_reply_rejection() {
    let body = encode_validate_response(&ClientValidateResponse::error("Invalid security code"));
    assert_eq!(
        body,
        "{\"result\":\"fail\",\"version\":\"1.0\",\"msg\":\"Invalid security code\"}"
    );
}

#[test]
fn status_query_is_percent_encoded() {
    let c = Client::new("gt id".to_owned(), DigestMod::Md5);
    assert_eq!(encode_status_query(&c.status_request()), "gt=gt%20id");
}

#[test]
fn register_query_without_user_context() {
    let c = Client::new("gt-1".to_owned(), DigestMod::Md5);
    assert_eq!(
        encode_register_query(&c.register_request(UserInfo::empty())),
        "digestmod=md5&json_format=1&sdk=geetest%20rust%20sdk%201.0&gt=gt-1"
    );
}

#[test]
fn register_query_with_user_context() {
    let c = Client::new("gt-1".to_owned(), DigestMod::Sha256);
    let user = UserInfo {
        user_id: Some("user 1".to_owned()),
        client_type: Some(ClientType::Web),
        ip_address: Some("10.0.0.1".to_owned()),
    };
    assert_eq!(
        encode_register_query(&c.register_request(user)),
        "user_id=user%201&client_type=web&ip_address=10.0.0.1&digestmod=sha256\
         &json_format=1&sdk=geetest%20rust%20sdk%201.0&gt=gt-1"
    );
}

#[test]
fn validate_body_json() {
    let c = Client::new("gt-1".to_owned(), DigestMod::HmacSha256);
    let body =
        encode_validate_body(&c.validate_request("sec".to_owned(), "chal".to_owned(), UserInfo::empty()));
    assert_eq!(
        body,
        "{\"user_id\":null,\"client_type\":null,\"ip_address\":null,\
         \"digestmod\":\"hmac-sha256\",\"json_format\":1,\"sdk\":\"geetest rust sdk 1.0\",\
         \"captchaid\":\"gt-1\",\"seccode\":\"sec\",\"challenge\":\"chal\"}"
    );
}

#[test]
fn validate_body_json_with_user_context() {
    let c = Client::new("gt".to_owned(), DigestMod::Md5);
    let user = UserInfo {
        user_id: Some("u\"x".to_owned()),
        client_type: Some(ClientType::Mobile),
        ip_address: Some("10.0.0.2".to_owned()),
    };
    let body = encode_validate_body(&c.validate_request("s".to_owned(), "c".to_owned(), user));
    assert_eq!(
        body,
        "{\"user_id\":\"u\\\"x\",\"client_type\":\"h5\",\"ip_address\":\"10.0.0.2\",\
         \"digestmod\":\"md5\",\"json_format\":1,\"sdk\":\"geetest rust sdk 1.0\",\
         \"captchaid\":\"gt\",\"seccode\":\"s\",\"challenge\":\"c\"}"
    );
}

#[test]
fn decode_status_values() {
    assert!(decode_status("success").unwrap().status);
    assert!(!decode_status("fail").unwrap().status);
    assert!(matches!(decode_status("bogus"), Err(Error::Json(_))));
}

#[test]
fn decode_seccode_sentinel() {
    assert_eq!(decode_seccode("false".to_owned()).seccode, None);
    assert_eq!(
        decode_seccode("abc".to_owned()).seccode,
        Some("abc".to_owned())
    );
}
