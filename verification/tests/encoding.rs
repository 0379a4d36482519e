use notification::encoding::{
    compute_legacy_signature, encode_path_segment, encode_query_value, escape_json_string,
    hmac_sha256_base64, tag_to_base64,
};
use notification::signing::{can_sign, sign_for_dingtalk, sign_for_feishu};
use std::collections::hash_map::DefaultHasher;
use std::hash::{Hash, Hasher};

#[test]
fn escapes_what_would_end_a_json_string() {
    assert_eq!(escape_json_string("a\"b\n"), "a\\\"b\\n");
    assert_eq!(escape_json_string("\\\r\t"), "\\\\\\r\\t");
    assert_eq!(escape_json_string("\\n"), "\\\\n");
    assert_eq!(escape_json_string("短信"), "短信");
    assert_eq!(escape_json_string(""), "");
}

#[test]
fn escaped_texts_are_read_back_by_a_json_parser() {
    for text in ["plain", "a \"quote\"", "back\\slash", "line\nbreak\r\n", "\ttab", "\\\"\\n"] {
        let quoted = format!("\"{}\"", escape_json_string(text));
        let read: String = serde_json::from_str(&quoted).unwrap();
        assert_eq!(read, text);
    }
}

#[test]
fn percent_encodes_all_but_letters_and_digits() {
    assert_eq!(encode_query_value("aZ09"), "aZ09");
    assert_eq!(encode_query_value("a b&c=d/e?"), "a%20b%26c%3Dd%2Fe%3F");
    assert_eq!(encode_query_value("-_.~%"), "%2D%5F%2E%7E%25");
    assert_eq!(encode_path_segment("键"), "%E9%94%AE");
    assert_eq!(encode_path_segment(""), "");
}

#[test]
fn percent_encoded_texts_differ_where_the_texts_do() {
    assert_ne!(encode_query_value("%20"), encode_query_value(" "));
    assert_ne!(encode_path_segment("a/b"), encode_path_segment("a%2Fb"));
}

#[test]
fn writes_base64_with_padding() {
    assert_eq!(tag_to_base64(&vec![]), "");
    assert_eq!(tag_to_base64(&vec![0x66]), "Zg==");
    assert_eq!(tag_to_base64(&vec![0x66, 0x6f]), "Zm8=");
    assert_eq!(tag_to_base64(&vec![0x66, 0x6f, 0x6f]), "Zm9v");
    assert_eq!(tag_to_base64(&vec![0xfb, 0xff, 0xfe, 0x00]), "+//+AA==");
}

#[test]
fn tags_with_hmac_sha256() {
    assert_eq!(
        hmac_sha256_base64(b"key", b"The quick brown fox jumps over the lazy dog"),
        "97yD9DBThCSxMpjmqm+xQ+9NWaFJRhdZl0edvC0aPNg="
    );
}

#[test]
fn signs_for_dingtalk_with_the_secret() {
    assert_eq!(
        sign_for_dingtalk(1700000000123, " SECabc "),
        "IqXBU/aLfwMA3S/tDcfRmHx5vWHw9Y1aOgFLBr1Ti9w="
    );
}

#[test]
fn signs_for_feishu_with_the_timestamp_and_the_secret() {
    assert_eq!(
        sign_for_feishu(1700000000, "fs-secret\n"),
        "ognpFOmraex6LA29Ao14dsiNmmjE3YO4x5e/SX8n9Bw="
    );
}

#[test]
fn any_secret_at_hand_can_sign() {
    assert!(can_sign(""));
    assert!(can_sign("a secret"));
}

#[test]
fn signs_webhook_payloads_with_a_hash_in_hexadecimal() {
    let mut hasher = DefaultHasher::new();
    "secret{\"a\":1}".hash(&mut hasher);
    assert_eq!(
        compute_legacy_signature("secret", "{\"a\":1}"),
        format!("{:016x}", hasher.finish())
    );
    assert_eq!(compute_legacy_signature("se", "cret"), compute_legacy_signature("secret", ""));
    assert_ne!(compute_legacy_signature("a", "b"), compute_legacy_signature("b", "a"));
}
