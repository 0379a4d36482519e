use notification::reply::{
    is_token_error, is_wecom_access_token_error, json_errcode, judge_reply, response_result,
    StatusCode,
};

fn status(code: u16) -> StatusCode {
    StatusCode::from_u16(code).unwrap()
}

fn judge(code: u16, body: &str) -> Result<String, String> {
    response_result("Bark", status(code), body.to_string())
}

#[test]
fn detects_wecom_access_token_errors() {
    assert!(is_wecom_access_token_error(
        r#"{"errcode":40014,"errmsg":"invalidaccess_token"}"#
    ));
    assert!(is_wecom_access_token_error(
        r#"{"errcode":42001,"errmsg":"access_token expired"}"#
    ));
    assert!(!is_wecom_access_token_error(
        r#"{"errcode":0,"errmsg":"ok"}"#
    ));
}

#[test]
fn other_answers_are_no_token_errors() {
    assert!(!is_wecom_access_token_error("40014"));
    assert!(!is_wecom_access_token_error(r#"{"errcode":"40014"}"#));
    assert!(!is_wecom_access_token_error("no JSON"));
    assert!(is_token_error(&Some((42001, String::new()))));
    assert!(!is_token_error(&Some((42002, String::new()))));
    assert!(!is_token_error(&None));
}

#[test]
fn a_status_has_three_digits() {
    assert!(StatusCode::from_u16(99).is_none());
    assert!(StatusCode::from_u16(1000).is_none());
    assert_eq!(status(100).as_u16(), 100);
    assert_eq!(status(999).as_u16(), 999);
}

#[test]
fn statuses_of_success_begin_with_two() {
    assert!(!status(199).is_success());
    assert!(status(200).is_success());
    assert!(status(299).is_success());
    assert!(!status(300).is_success());
}

#[test]
fn a_status_is_written_with_its_reason() {
    assert_eq!(status(200).text(), "200 OK");
    assert_eq!(status(404).text(), "404 Not Found");
    assert_eq!(status(799).text(), "799 <unknown status code>");
}

#[test]
fn a_status_of_failure_decides_by_itself() {
    assert_eq!(
        judge(502, r#"{"code":200}"#),
        Err(r#"Bark returned HTTP 502 Bad Gateway: {"code":200}"#.to_string())
    );
}

#[test]
fn an_answer_without_complaint_is_success() {
    for body in [
        "",
        "no JSON",
        "[]",
        r#"{"ok":true}"#,
        r#"{"errcode":0}"#,
        r#"{"code":0}"#,
        r#"{"code":200,"msg":"fine"}"#,
        r#"{"StatusCode":0}"#,
        r#"{"ok":"false","errcode":"1","code":1.5,"StatusCode":null}"#,
    ] {
        assert_eq!(
            judge(200, body),
            Ok("Bark test successful (status: 200 OK)".to_string())
        );
    }
}

#[test]
fn complaints_are_reported() {
    let error = |text: &str| Err(text.to_string());
    assert_eq!(judge(200, r#"{"ok":false}"#), error(r#"Bark returned error: {"ok":false}"#));
    assert_eq!(
        judge(200, r#"{"errcode":93000,"errmsg":"invalid"}"#),
        error("Bark returned errcode 93000: invalid")
    );
    assert_eq!(
        judge(200, r#"{"errcode":-1,"err_msg":"busy"}"#),
        error("Bark returned errcode -1: busy")
    );
    assert_eq!(
        judge(200, r#"{"errcode":7,"errmsg":null,"err_msg":"unseen"}"#),
        error(r#"Bark returned errcode 7: {"errcode":7,"errmsg":null,"err_msg":"unseen"}"#)
    );
    assert_eq!(
        judge(201, r#"{"code":400,"msg":"bad"}"#),
        error("Bark returned code 400: bad")
    );
    assert_eq!(
        judge(200, r#"{"code":400,"message":"worse"}"#),
        error("Bark returned code 400: worse")
    );
    assert_eq!(
        judge(200, r#"{"StatusCode":19001,"StatusMessage":"param"}"#),
        error("Bark returned StatusCode 19001: param")
    );
    assert_eq!(
        judge(200, r#"{"StatusCode":1}"#),
        error(r#"Bark returned StatusCode 1: {"StatusCode":1}"#)
    );
}

#[test]
fn the_first_complaint_counts() {
    assert_eq!(
        judge(200, r#"{"code":3,"errcode":2,"msg":"m","errmsg":"e"}"#),
        Err("Bark returned errcode 2: e".to_string())
    );
}

#[test]
fn numbers_beyond_64_bits_are_no_error_numbers() {
    assert_eq!(json_errcode(r#"{"errcode":9223372036854775808}"#), None);
    assert_eq!(
        json_errcode(r#"{"errcode":-9223372036854775808,"errmsg":"least"}"#),
        Some((i64::MIN, "least".to_string()))
    );
}

#[test]
fn a_refused_token_is_never_success() {
    for code in [200, 299, 400, 500] {
        for body in [r#"{"errcode":40014}"#, r#"{"ok":true,"errcode":42001,"code":0}"#] {
            assert!(is_wecom_access_token_error(body));
            assert!(judge(code, body).is_err());
        }
    }
}

#[test]
fn a_body_that_was_not_read_is_judged_by_the_status() {
    assert!(judge_reply("Bark", status(204), "?", None).is_ok());
    assert!(judge_reply("Bark", status(304), "?", None).is_err());
}
