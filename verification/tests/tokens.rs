use notification::channels::dingtalk_app::{
    fetch_dingtalk_access_token, post_dingtalk_app_message, read_dingtalk_access_token,
    DingtalkTokenAnswer, DingtalkTokenReply,
};
use notification::channels::wecom_app::{
    follow_wecom_post, post_wecom_app_payload, read_wecom_access_token, request_wecom_access_token,
    WecomTokenAnswer, WecomTokenReply,
};
use notification::clock::Span;
use notification::delivery::{Body, Method, Pending, Reply, Request, Step, WecomMessage};
use notification::reply::StatusCode;
use notification::sender::{NotificationSender, WecomToken};
use notification::token_cache::{refresh_after, WecomTokenCache};
use serde_json::Value;

fn status(code: u16) -> StatusCode {
    StatusCode::from_u16(code).unwrap()
}

fn at(secs: u64) -> Span {
    Span { secs, nanos: 0 }
}

fn granted(token: &str, expires_in: Option<u64>) -> WecomTokenReply {
    WecomTokenReply::Answered(
        status(200),
        String::new(),
        Ok(WecomTokenAnswer {
            errcode: 0,
            errmsg: "ok".to_string(),
            access_token: token.to_string(),
            expires_in,
        }),
    )
}

fn message(retried: bool) -> WecomMessage {
    WecomMessage {
        corp_id: "corp".to_string(),
        secret: "secret".to_string(),
        payload: Value::from("payload"),
        retried,
    }
}

fn cached(sender: &NotificationSender, corp_id: &str, secret: &str, now: Span) -> Option<String> {
    match sender.fetch_wecom_access_token(corp_id, secret, now) {
        WecomToken::Cached(token) => Some(token),
        WecomToken::Missing(request) => {
            let Request { method, url, headers, body } = request;
            assert_eq!(method, Method::Get);
            assert!(url.starts_with("https://qyapi.weixin.qq.com/cgi-bin/gettoken?corpid="));
            assert!(headers.is_empty());
            assert!(matches!(body, Body::Empty));
            None
        }
    }
}

#[test]
fn tokens_are_fetched_anew_before_they_expire() {
    assert_eq!(refresh_after(None), 6900);
    assert_eq!(refresh_after(Some(7200)), 6900);
    assert_eq!(refresh_after(Some(601)), 301);
    assert_eq!(refresh_after(Some(600)), 300);
    assert_eq!(refresh_after(Some(3)), 1);
    assert_eq!(refresh_after(Some(1)), 1);
    assert_eq!(refresh_after(Some(0)), 1);
    assert_eq!(refresh_after(Some(u64::MAX)), u64::MAX - 300);
}

#[test]
fn a_cache_holds_one_token_for_each_corporation_and_secret() {
    let mut cache = WecomTokenCache::new();
    cache.insert("a", "b", "first", 10_000_000_000);
    cache.insert("a", "c", "other", 10_000_000_000);
    cache.insert("a", "b", "second", 20_000_000_000);
    assert_eq!(cache.get("a", "b", at(19)), Some("second".to_string()));
    assert_eq!(cache.get("a", "b", at(20)), None);
    assert_eq!(cache.get("a", "c", at(9)), Some("other".to_string()));
    assert_eq!(cache.get("b", "a", at(0)), None);
    cache.remove("a", "b");
    cache.remove("a", "b");
    assert_eq!(cache.get("a", "b", at(0)), None);
    assert_eq!(cache.get("a", "c", at(0)), Some("other".to_string()));
}

#[test]
fn a_granted_token_serves_until_it_is_due() {
    let mut sender = NotificationSender::new();
    assert_eq!(cached(&sender, "corp", "secret", at(0)), None);
    let token = sender.keep_wecom_access_token("corp", "secret", granted("T1", Some(600)), at(50));
    assert_eq!(token, Ok("T1".to_string()));
    assert_eq!(cached(&sender, "corp", "secret", at(50)), Some("T1".to_string()));
    assert_eq!(
        cached(&sender, "corp", "secret", Span { secs: 349, nanos: 999_999_999 }),
        Some("T1".to_string())
    );
    assert_eq!(cached(&sender, "corp", "secret", at(350)), None);
    assert_eq!(cached(&sender, "corp", "other", at(50)), None);
}

#[test]
fn a_token_can_be_forgotten() {
    let mut sender = NotificationSender::new();
    let _ = sender.keep_wecom_access_token("corp", "secret", granted("T1", None), at(0));
    let _ = sender.keep_wecom_access_token("corp", "other", granted("T2", None), at(0));
    sender.invalidate_wecom_access_token("corp", "secret");
    assert_eq!(cached(&sender, "corp", "secret", at(1)), None);
    assert_eq!(cached(&sender, "corp", "other", at(1)), Some("T2".to_string()));
}

#[test]
fn a_reply_without_a_token_is_not_kept() {
    let mut sender = NotificationSender::new();
    let failed = WecomTokenReply::Failed("timeout".to_string());
    assert_eq!(
        sender.keep_wecom_access_token("corp", "secret", failed, at(0)),
        Err("Failed to get WeCom access token: timeout".to_string())
    );
    assert_eq!(cached(&sender, "corp", "secret", at(0)), None);
}

#[test]
fn tokens_of_wecom_are_requested_by_query() {
    let request = request_wecom_access_token("ww 1", "a+b");
    assert_eq!(
        request.url,
        "https://qyapi.weixin.qq.com/cgi-bin/gettoken?corpid=ww%201&corpsecret=a%2Bb"
    );
}

#[test]
fn replies_without_a_token_of_wecom_say_why() {
    let answered = |code: u16, fields: Result<WecomTokenAnswer, String>| {
        read_wecom_access_token(WecomTokenReply::Answered(status(code), "BODY".to_string(), fields))
            .map(|granted| granted.access_token)
    };
    let answer = |errcode: i64, token: &str| WecomTokenAnswer {
        errcode,
        errmsg: "invalid corpid".to_string(),
        access_token: token.to_string(),
        expires_in: None,
    };
    assert_eq!(
        answered(500, Ok(answer(0, "T"))),
        Err("WeCom token request failed (500 Internal Server Error): BODY".to_string())
    );
    assert_eq!(
        answered(200, Err("expected value".to_string())),
        Err("Failed to parse WeCom token response: expected value".to_string())
    );
    assert_eq!(
        answered(200, Ok(answer(40013, "T"))),
        Err("WeCom token error 40013: invalid corpid".to_string())
    );
    assert_eq!(
        answered(200, Ok(answer(0, ""))),
        Err("WeCom token response did not include access_token".to_string())
    );
    assert_eq!(answered(200, Ok(answer(0, "T"))), Ok("T".to_string()));
}

#[test]
fn messages_of_wecom_are_posted_with_their_token() {
    match post_wecom_app_payload(message(false), Ok("T1".to_string())) {
        Step::Send(request, Pending::Wecom(pending)) => {
            assert_eq!(request.method, Method::Post);
            assert_eq!(
                request.url,
                "https://qyapi.weixin.qq.com/cgi-bin/message/send?access_token=T1"
            );
            assert!(request.headers.is_empty());
            assert!(matches!(request.body, Body::Json(payload) if payload == "payload"));
            assert_eq!(pending.payload, "payload");
            assert!(!pending.retried);
        }
        _ => panic!("a message with a token is posted"),
    }
    match post_wecom_app_payload(message(false), Err("no token".to_string())) {
        Step::Done(result) => assert_eq!(result, Err("no token".to_string())),
        _ => panic!("without a token nothing is posted"),
    }
}

#[test]
fn a_refused_token_is_replaced_once() {
    let refusal = || Reply::Answered(
        status(200),
        r#"{"errcode":42001,"errmsg":"access_token expired"}"#.to_string(),
    );
    let mut sender = NotificationSender::new();
    let _ = sender.keep_wecom_access_token("corp", "secret", granted("T1", None), at(0));
    let again = match sender.resume(Pending::Wecom(message(false)), refusal()) {
        Step::WecomToken(again) => again,
        _ => panic!("the message is sent anew"),
    };
    assert!(again.retried);
    assert_eq!(again.corp_id, "corp");
    assert_eq!(again.secret, "secret");
    assert_eq!(again.payload, "payload");
    assert_eq!(cached(&sender, "corp", "secret", at(1)), None);

    let _ = sender.keep_wecom_access_token("corp", "secret", granted("T2", None), at(1));
    match sender.resume(Pending::Wecom(again), refusal()) {
        Step::Done(result) => assert_eq!(
            result,
            Err("企业微信应用消息 returned errcode 42001: access_token expired".to_string())
        ),
        _ => panic!("a second refusal ends the delivery"),
    }
    assert_eq!(cached(&sender, "corp", "secret", at(2)), Some("T2".to_string()));
}

#[test]
fn other_answers_end_a_delivery_of_wecom() {
    let mut sender = NotificationSender::new();
    let mut outcome = |reply: Reply| match sender.resume(Pending::Wecom(message(false)), reply) {
        Step::Done(result) => result,
        _ => panic!("the delivery is over"),
    };
    assert_eq!(
        outcome(Reply::Failed("timeout".to_string())),
        Err("Failed to send 企业微信应用消息 message: timeout".to_string())
    );
    assert_eq!(
        outcome(Reply::Answered(status(200), r#"{"errcode":0}"#.to_string())),
        Ok("企业微信应用消息 test successful (status: 200 OK)".to_string())
    );
    assert_eq!(
        outcome(Reply::Answered(status(200), r#"{"errcode":81013}"#.to_string())),
        Err(r#"企业微信应用消息 returned errcode 81013: {"errcode":81013}"#.to_string())
    );
}

#[test]
fn a_refusal_is_a_failure_whatever_the_outcome_says() {
    let mut cache = WecomTokenCache::new();
    match follow_wecom_post(&mut cache, message(true), true, Ok("fine".to_string())) {
        Step::Done(result) => assert_eq!(result, Err("fine".to_string())),
        _ => panic!("a second refusal ends the delivery"),
    }
}

#[test]
fn tokens_of_dingtalk_are_requested_by_post() {
    let request = fetch_dingtalk_access_token("key", "secret");
    assert_eq!(request.method, Method::Post);
    assert_eq!(request.url, "https://api.dingtalk.com/v1.0/oauth2/accessToken");
    let expected: Value = serde_json::from_str(r#"{"appKey":"key","appSecret":"secret"}"#).unwrap();
    assert!(matches!(request.body, Body::Json(payload) if payload == expected));
}

#[test]
fn replies_without_a_token_of_dingtalk_say_why() {
    let answered = |code: u16, fields: Result<DingtalkTokenAnswer, String>| {
        read_dingtalk_access_token(DingtalkTokenReply::Answered(
            status(code),
            "BODY".to_string(),
            fields,
        ))
    };
    let answer = |token: &str| DingtalkTokenAnswer {
        access_token: token.to_string(),
        code: "Forbidden".to_string(),
        message: "no permission".to_string(),
    };
    assert_eq!(
        read_dingtalk_access_token(DingtalkTokenReply::Failed("timeout".to_string())),
        Err("Failed to get DingTalk access token: timeout".to_string())
    );
    assert_eq!(
        answered(403, Ok(answer("T"))),
        Err("DingTalk token request failed (403 Forbidden): BODY".to_string())
    );
    assert_eq!(
        answered(200, Err("expected value".to_string())),
        Err("Failed to parse DingTalk token response: expected value".to_string())
    );
    assert_eq!(
        answered(200, Ok(answer(""))),
        Err("DingTalk token response did not include accessToken: Forbidden no permission".to_string())
    );
    assert_eq!(answered(200, Ok(answer("T"))), Ok("T".to_string()));
}

#[test]
fn messages_of_dingtalk_are_posted_with_their_token() {
    let reply = DingtalkTokenReply::Answered(
        status(200),
        String::new(),
        Ok(DingtalkTokenAnswer {
            access_token: "T".to_string(),
            code: String::new(),
            message: String::new(),
        }),
    );
    match post_dingtalk_app_message(Value::from("payload"), reply) {
        Step::Send(request, Pending::Message { label, failure }) => {
            assert_eq!(request.url, "https://api.dingtalk.com/v1.0/robot/groupMessages/send");
            assert_eq!(
                request.headers,
                vec![("x-acs-dingtalk-access-token".to_string(), "T".to_string())]
            );
            assert!(matches!(request.body, Body::Json(payload) if payload == "payload"));
            assert_eq!(label, "钉钉企业内机器人");
            assert_eq!(failure, "Failed to send DingTalk app robot message: ");
        }
        _ => panic!("a message with a token is posted"),
    }
}
