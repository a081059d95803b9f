use unkey_gateway::config::{setting_or, Config};
use unkey_gateway::credential::{key_request, verify_request, KeyCreateData, RefillInterval, RefillPlan};
use unkey_gateway::generation::{first_image_url, image_request_body, GenerationError};
use unkey_gateway::json::{hex_digit_of, hex_value_of};
use unkey_gateway::session::{decode_token, encode_token, Session};

fn credential(key: &str, key_id: &str) -> KeyCreateData {
    KeyCreateData { key: key.to_string(), key_id: key_id.to_string() }
}

#[test]
fn token_has_json_object_form() {
    assert_eq!(encode_token(&credential("sk_test", "id_1")), r#"{"key":"sk_test","key_id":"id_1"}"#);
}

#[test]
fn token_escapes_quotes_backslashes_and_controls() {
    let c = credential("a\"b\\c", "x\ny\u{1f}");
    let token = encode_token(&c);
    assert_eq!(token, r#"{"key":"a\"b\\c","key_id":"x\ny\u001f"}"#);
    assert_eq!(decode_token(&token), Some(c));
}

#[test]
fn token_round_trips_unicode_and_empty() {
    for (k, i) in [("", ""), ("ключ", "標識"), ("sk_\u{0}", "}")] {
        let c = credential(k, i);
        assert_eq!(decode_token(&encode_token(&c)), Some(c));
    }
}

#[test]
fn malformed_tokens_read_as_absent() {
    for t in [
        "",
        "{}",
        "not json",
        r#"{"key":"sk_test","key_id":"id_1""#,
        r#"{"key":"a","key":"b","key_id":"i"}"#,
        r#"{"key":"a"}"#,
        r#"{"key":1,"key_id":"i"}"#,
        r#"{"key":null,"key_id":"i"}"#,
        r#"{"key":"a","key_id":"i",}"#,
        r#"{"key":"a","key_id":"i"} x"#,
        r#"{"key":"\ud800","key_id":"i"}"#,
        r#"{"key":"\udc00","key_id":"i"}"#,
        r#"{"key":"a","key_id":"i","x":[1,]}"#,
        r#"{"key":"a","key_id":"i","x":01}"#,
        r#"{"key":"a","key_id":"i","x":tru}"#,
        r#"["a"]"#,
        r#"["a","i","x"]"#,
        r#"["a",1]"#,
        r#"{"key":"sk\q","key_id":"id_1"}"#,
        r#"{"key":"sk_test","key_id":"id_1\u00zz"}"#,
        "{\"key\":\"a\nb\",\"key_id\":\"i\"}",
    ] {
        assert_eq!(decode_token(t), None, "{}", t);
        assert_eq!(Session::from_token(Some(t.to_string())).get(), None);
    }
}

#[test]
fn token_reads_any_member_order_and_whitespace() {
    let expected = Some(credential("sk_test", "id_1"));
    assert_eq!(decode_token(r#"{"key_id":"id_1","key":"sk_test"}"#), expected);
    assert_eq!(decode_token(" \n{ \"key\" :\t\"sk_test\" ,\r\"key_id\": \"id_1\" }\n "), expected);
}

#[test]
fn token_reads_two_element_array() {
    assert_eq!(decode_token(r#" [ "sk_test" , "id_1" ] "#), Some(credential("sk_test", "id_1")));
}

#[test]
fn token_passes_over_other_members() {
    let t = r#"{"n":-1.5e+3,"key":"sk_test","o":{"a":[true,false,null,{}],"b":[]},"key_id":"id_1","s":"x\"y"}"#;
    assert_eq!(decode_token(t), Some(credential("sk_test", "id_1")));
}

#[test]
fn token_reads_every_string_escape() {
    let t = r#"{"key":"\/\b\f\n\r\t\u00E9\u00e9\ud83d\ude00","k\u0065y_id":"i"}"#;
    assert_eq!(decode_token(t), Some(credential("/\u{8}\u{c}\n\r\t\u{e9}\u{e9}\u{1F600}", "i")));
}

#[test]
fn token_reads_escaped_quote_and_backslash() {
    assert_eq!(
        decode_token(r#"{"key":"aAb","key_id":"\"\\"}"#),
        Some(credential("aAb", "\"\\"))
    );
}

#[test]
fn fresh_session_holds_nothing() {
    assert_eq!(Session::new().get(), None);
    assert_eq!(Session::new().token, None);
}

#[test]
fn put_replaces_held_key() {
    let mut s = Session::new();
    s.put(&credential("k1", "i1"));
    s.put(&credential("k2", "i2"));
    assert_eq!(s.get(), Some(credential("k2", "i2")));
}

#[test]
fn image_body_is_fixed_shape() {
    assert_eq!(
        image_request_body("a cat"),
        r#"{"prompt":"a cat","n":1,"size":"1024x1024","response_format":"url"}"#
    );
    assert_eq!(
        image_request_body("say \"hi\""),
        r#"{"prompt":"say \"hi\"","n":1,"size":"1024x1024","response_format":"url"}"#
    );
}

#[test]
fn first_image_is_taken() {
    let urls = vec!["u1".to_string(), "u2".to_string()];
    assert_eq!(first_image_url(urls), Ok("u1".to_string()));
    assert_eq!(first_image_url(Vec::new()), Err(GenerationError::NoImage));
}

#[test]
fn key_request_has_fixed_policy() {
    let r = key_request("api_123");
    assert_eq!(r.api_id, "api_123");
    assert_eq!(r.owner_id, "superuser");
    assert_eq!(r.remaining, 10);
    assert_eq!(r.refill, RefillPlan { amount: 10, interval: RefillInterval::Daily });
}

#[test]
fn verify_request_carries_key_and_api() {
    let r = verify_request("sk_test", "api_123");
    assert_eq!(r.key, "sk_test");
    assert_eq!(r.api_id, "api_123");
}

#[test]
fn settings_fall_back_to_default() {
    assert_eq!(setting_or(Some("v".to_string()), "d"), "v");
    assert_eq!(setting_or(None, "d"), "d");
    let c = Config::from_values(Some("root".to_string()), None, Some("oa".to_string()));
    assert_eq!(c.unkey_root_key, "root");
    assert_eq!(c.unkey_api_id, "");
    assert_eq!(c.openai_api_key, "oa");
}

#[test]
fn hex_digits() {
    assert_eq!(hex_digit_of(0), '0');
    assert_eq!(hex_digit_of(10), 'a');
    assert_eq!(hex_digit_of(15), 'f');
    assert_eq!(hex_value_of('7'), Some(7));
    assert_eq!(hex_value_of('e'), Some(14));
    assert_eq!(hex_value_of('G'), None);
}

#[test]
fn deeply_nested_other_member_is_passed_over() {
    let deep = format!("{}{}", "[".repeat(300), "]".repeat(300));
    let t = format!(r#"{{"x":{},"key":"k","key_id":"i"}}"#, deep);
    assert_eq!(decode_token(&t), Some(credential("k", "i")));
    let unbalanced = format!(r#"{{"x":{},"key":"k","key_id":"i"}}"#, "[".repeat(300));
    assert_eq!(decode_token(&unbalanced), None);
}
