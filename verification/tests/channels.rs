use notification::channels::bark::{send_bark_call, send_bark_ddns, send_bark_sms};
use notification::channels::dingtalk_app::{send_dingtalk_app_ddns, send_dingtalk_app_sms};
use notification::channels::dingtalk_robot::{
    send_dingtalk_robot_sms, send_dingtalk_robot_text, send_dingtalk_robot_text_at, sign_url,
};
use notification::channels::feishu_robot::{send_feishu_robot_text, send_feishu_robot_text_at};
use notification::channels::pushplus::{
    send_pushplus_call, send_pushplus_ddns, send_pushplus_sms,
};
use notification::channels::robot::robot_webhook_url;
use notification::channels::telegram::send_telegram_text;
use notification::channels::webhook::{
    send_webhook_call, send_webhook_ddns, send_webhook_raw, send_webhook_sms,
};
use notification::channels::wecom_app::send_wecom_app_text;
use notification::channels::wecom_robot::send_wecom_robot_text;
use notification::config::{
    BarkConfig, DingtalkAppConfig, DingtalkRobotConfig, FeishuRobotConfig, MessageChannelConfig,
    NotificationConfig, PushPlusConfig, TelegramConfig, WebhookConfig, WecomAppConfig,
    WecomRobotConfig,
};
use notification::delivery::{Body, Method, Pending, Request, Step};
use notification::encoding::compute_legacy_signature;
use notification::json::insert_non_empty;
use notification::models::{CallRecord, DdnsEvent, SmsMessage};
use serde_json::Value;

fn common() -> MessageChannelConfig {
    MessageChannelConfig {
        enabled: true,
        forward_sms: true,
        forward_calls: true,
        forward_ddns: true,
        sms_template: "sms {{content}}".to_string(),
        call_template: "call {{caller}}".to_string(),
        ddns_template: "ddns {{domain}}".to_string(),
    }
}

fn config() -> NotificationConfig {
    let text = |text: &str| text.to_string();
    NotificationConfig {
        webhook: WebhookConfig {
            enabled: true,
            forward_sms: true,
            forward_calls: true,
            forward_ddns: true,
            url: text(" https://hook.example/x "),
            headers: vec![],
            secret: text(""),
            sms_template: text("{\"sms\":\"{{content}}\"}"),
            call_template: text("{\"call\":\"{{caller}}\"}"),
            ddns_template: text("{\"ddns\":\"{{domain}}\"}"),
        },
        bark: BarkConfig {
            common: common(),
            server_url: text(" https://api.day.app// "),
            device_key: text(" a/b "),
            title_template: text("from {{sender}}"),
            group: text(""),
            sound: text(" bell "),
            level: text(""),
            icon: text(""),
            click_url: text(" "),
            auto_copy: false,
            copy: text(""),
            save_history: false,
        },
        pushplus: PushPlusConfig {
            common: common(),
            title_template: text("from {{sender}}"),
            token: text(" PT "),
            topic: text("T"),
            template: text(""),
            channel: text("mail"),
            option: text(""),
            callback_url: text(" https://back.example "),
        },
        wecom_app: WecomAppConfig {
            common: common(),
            corp_id: text(" corp "),
            agent_id: text(" 1000002 "),
            secret: text(" secret "),
            to_user: text(" "),
            to_party: text(" 2 "),
            to_tag: text(""),
            safe: true,
        },
        wecom_robot: WecomRobotConfig { common: common(), webhook_url: text(""), key: text("k 1") },
        dingtalk_robot: DingtalkRobotConfig {
            common: common(),
            webhook_url: text(""),
            access_token: text("AT"),
            secret: text(""),
            at_mobiles: text("13800138000, 13900139000,"),
            at_all: false,
        },
        dingtalk_app: DingtalkAppConfig {
            common: common(),
            app_key: text(" key "),
            app_secret: text(" secret "),
            open_conversation_id: text(" cid "),
            robot_code: text(""),
            msg_key: text(""),
        },
        feishu_robot: FeishuRobotConfig {
            common: common(),
            webhook_url: text(""),
            token: text("FT"),
            secret: text(""),
        },
        telegram: TelegramConfig {
            common: common(),
            bot_token: text(" 1:B "),
            chat_id: text(" -100 "),
            disable_web_page_preview: true,
            parse_mode: text(" HTML "),
        },
    }
}

fn sms() -> SmsMessage {
    SmsMessage {
        id: 7,
        direction: "incoming".to_string(),
        phone_number: "+8613800138000".to_string(),
        content: "hi \"you\"".to_string(),
        timestamp: "2026-05-14T16:30:45Z".to_string(),
        status: "received".to_string(),
        pdu: None,
    }
}

fn call() -> CallRecord {
    CallRecord {
        id: 9,
        direction: "incoming".to_string(),
        phone_number: "10086".to_string(),
        duration: 12,
        start_time: "2026-05-14T16:30:45Z".to_string(),
        end_time: None,
        answered: true,
    }
}

fn event() -> DdnsEvent {
    DdnsEvent { domains: vec!["a.example".to_string()], ..DdnsEvent::default() }
}

fn sent(step: Step) -> (Request, String, String) {
    match step {
        Step::Send(request, Pending::Message { label, failure }) => (request, label, failure),
        _ => panic!("a message is sent"),
    }
}

fn refusal(step: Step) -> String {
    match step {
        Step::Done(Err(reason)) => reason,
        _ => panic!("nothing is sent"),
    }
}

fn text_body(request: Request) -> String {
    match request.body {
        Body::Text(text) => text,
        _ => panic!("the body is a text"),
    }
}

fn json_body(request: Request) -> Value {
    match request.body {
        Body::Json(value) => value,
        _ => panic!("the body is JSON"),
    }
}

fn json(text: &str) -> Value {
    serde_json::from_str(text).unwrap()
}

fn header(name: &str, value: &str) -> (String, String) {
    (name.to_string(), value.to_string())
}

#[test]
fn webhooks_get_the_filled_template() {
    let config = config().webhook;
    let (request, label, failure) = sent(send_webhook_sms(&config, &sms(), false));
    assert_eq!(request.method, Method::Post);
    assert_eq!(request.url, "https://hook.example/x");
    assert_eq!(request.headers, vec![header("Content-Type", "application/json")]);
    assert_eq!(text_body(request), r#"{"sms":"hi \"you\""}"#);
    assert_eq!(label, "Webhook");
    assert_eq!(failure, "Failed to send webhook: ");
    let (request, _, _) = sent(send_webhook_call(&config, &call(), false));
    assert_eq!(text_body(request), r#"{"call":"10086"}"#);
    let (request, _, _) = sent(send_webhook_ddns(&config, &event()));
    assert_eq!(text_body(request), r#"{"ddns":"a.example"}"#);
}

#[test]
fn webhooks_keep_configured_headers_and_name_the_content_type_once() {
    let mut config = config().webhook;
    config.headers = vec![header("X-A", "1"), header("CONTENT-type", "text/plain")];
    let (request, _, _) = sent(send_webhook_raw(&config, "body"));
    assert_eq!(
        request.headers,
        vec![header("X-A", "1"), header("CONTENT-type", "text/plain")]
    );
    config.headers = vec![header("Content-Types", "x")];
    let (request, _, _) = sent(send_webhook_raw(&config, "body"));
    assert_eq!(
        request.headers,
        vec![header("Content-Types", "x"), header("Content-Type", "application/json")]
    );
}

#[test]
fn webhooks_with_a_secret_are_signed() {
    let mut config = config().webhook;
    config.secret = " s ".to_string();
    let (request, _, _) = sent(send_webhook_raw(&config, "body"));
    assert_eq!(
        request.headers,
        vec![
            header("Content-Type", "application/json"),
            header("X-Webhook-Signature", &compute_legacy_signature("s", "body")),
        ]
    );
}

#[test]
fn webhooks_need_an_address() {
    let mut config = config().webhook;
    config.url = " ".to_string();
    assert_eq!(refusal(send_webhook_sms(&config, &sms(), true)), "Webhook URL is not configured");
    assert_eq!(refusal(send_webhook_call(&config, &call(), true)), "Webhook URL is not configured");
    assert_eq!(refusal(send_webhook_ddns(&config, &event())), "Webhook URL is not configured");
}

#[test]
fn bark_gets_titles_and_bodies() {
    let config = config().bark;
    let (request, label, failure) = sent(send_bark_sms(&config, &sms(), false));
    assert_eq!(request.url, "https://api.day.app/a%2Fb");
    assert!(request.headers.is_empty());
    assert_eq!(
        json_body(request),
        json(
            r#"{"title":"from +8613800138000","body":"sms hi \"you\"","sound":"bell",
                "isArchive":0}"#
        )
    );
    assert_eq!(label, "Bark");
    assert_eq!(failure, "Failed to send Bark message: ");
    let (request, _, _) = sent(send_bark_call(&config, &call(), false));
    assert_eq!(
        json_body(request),
        json(r#"{"title":"SimAdmin 来电通知","body":"call 10086","sound":"bell","isArchive":0}"#)
    );
    let (request, _, _) = sent(send_bark_ddns(&config, &event()));
    assert_eq!(
        json_body(request),
        json(r#"{"title":"SimAdmin DDNS 通知","body":"ddns a.example","sound":"bell","isArchive":0}"#)
    );
}

#[test]
fn bark_has_options() {
    let mut config = config().bark;
    config.group = "g".to_string();
    config.level = "active".to_string();
    config.icon = "i".to_string();
    config.click_url = "u".to_string();
    config.sound = String::new();
    config.auto_copy = true;
    config.save_history = true;
    let (request, _, _) = sent(send_bark_call(&config, &call(), false));
    assert_eq!(
        json_body(request),
        json(
            r#"{"title":"SimAdmin 来电通知","body":"call 10086","group":"g","level":"active",
                "icon":"i","url":"u","automaticallyCopy":1,"copy":"call 10086","isArchive":1}"#
        )
    );
    config.copy = " code ".to_string();
    let (request, _, _) = sent(send_bark_call(&config, &call(), false));
    assert_eq!(json_body(request)["copy"], "code");
}

#[test]
fn bark_needs_a_device_key() {
    let mut config = config().bark;
    config.device_key = "\t".to_string();
    assert_eq!(refusal(send_bark_sms(&config, &sms(), false)), "Bark device key is not configured");
    assert_eq!(refusal(send_bark_call(&config, &call(), false)), "Bark device key is not configured");
    assert_eq!(refusal(send_bark_ddns(&config, &event())), "Bark device key is not configured");
}

#[test]
fn pushplus_gets_titles_and_contents() {
    let config = config().pushplus;
    let (request, label, failure) = sent(send_pushplus_sms(&config, &sms(), false));
    assert_eq!(request.url, "https://www.pushplus.plus/send");
    assert_eq!(
        json_body(request),
        json(
            r#"{"token":"PT","title":"from +8613800138000","content":"sms hi \"you\"",
                "topic":"T","channel":"mail","callbackUrl":"https://back.example"}"#
        )
    );
    assert_eq!(label, "PushPlus");
    assert_eq!(failure, "Failed to send PushPlus message: ");
    let (request, _, _) = sent(send_pushplus_call(&config, &call(), false));
    assert_eq!(json_body(request)["title"], "SimAdmin 来电通知");
    let (request, _, _) = sent(send_pushplus_ddns(&config, &event()));
    assert_eq!(json_body(request)["title"], "SimAdmin DDNS 通知");
}

#[test]
fn pushplus_needs_a_token() {
    let mut config = config().pushplus;
    config.token = String::new();
    assert_eq!(refusal(send_pushplus_sms(&config, &sms(), true)), "PushPlus token is not configured");
}

#[test]
fn applications_of_wecom_need_a_token_first() {
    let config = config().wecom_app;
    match send_wecom_app_text(&config, "hi") {
        Step::WecomToken(message) => {
            assert_eq!(message.corp_id, "corp");
            assert_eq!(message.secret, "secret");
            assert!(!message.retried);
            assert_eq!(
                message.payload,
                json(
                    r#"{"touser":"@all","toparty":"2","totag":"","msgtype":"text",
                        "agentid":1000002,"text":{"content":"hi"},"safe":1}"#
                )
            );
        }
        _ => panic!("a token is needed"),
    }
}

#[test]
fn applications_of_wecom_need_a_corporation_an_agent_and_a_secret() {
    let missing = "企业微信 CorpID、AgentID 或 Secret 未配置";
    let mut changed = config().wecom_app;
    changed.corp_id = String::new();
    assert_eq!(refusal(send_wecom_app_text(&changed, "hi")), missing);
    let mut changed = config().wecom_app;
    changed.secret = " ".to_string();
    assert_eq!(refusal(send_wecom_app_text(&changed, "hi")), missing);
    let mut changed = config().wecom_app;
    changed.agent_id = String::new();
    assert_eq!(refusal(send_wecom_app_text(&changed, "hi")), missing);
}

#[test]
fn agents_of_wecom_have_numbers() {
    let mut config = config().wecom_app;
    for agent_id in ["x", "1.5", "--1", "+", "9223372036854775808"] {
        config.agent_id = agent_id.to_string();
        assert_eq!(refusal(send_wecom_app_text(&config, "hi")), "企业微信 AgentID 必须为数字");
    }
    for (agent_id, number) in [("+7", 7), ("-0012", -12), ("9223372036854775807", i64::MAX)] {
        config.agent_id = agent_id.to_string();
        config.to_user = "@me".to_string();
        config.safe = false;
        match send_wecom_app_text(&config, "hi") {
            Step::WecomToken(message) => {
                assert_eq!(message.payload["agentid"], number);
                assert_eq!(message.payload["touser"], "@me");
                assert_eq!(message.payload["safe"], 0);
            }
            _ => panic!("a token is needed"),
        }
    }
}

#[test]
fn robots_have_an_address_or_a_key() {
    assert_eq!(
        robot_webhook_url(" https://robot.example ", "key", "https://x/"),
        Ok("https://robot.example".to_string())
    );
    assert_eq!(robot_webhook_url(" ", " a/b ", "https://x/"), Ok("https://x/a%2Fb".to_string()));
    assert_eq!(
        robot_webhook_url("", " ", "https://x/"),
        Err("Webhook URL 或 Key/Token 未配置".to_string())
    );
}

#[test]
fn robots_of_wecom_get_texts() {
    let (request, label, _) = sent(send_wecom_robot_text(&config().wecom_robot, "hi"));
    assert_eq!(request.url, "https://qyapi.weixin.qq.com/cgi-bin/webhook/send?key=k%201");
    assert_eq!(json_body(request), json(r#"{"msgtype":"text","text":{"content":"hi"}}"#));
    assert_eq!(label, "企业微信群机器人");
}

#[test]
fn robots_of_dingtalk_get_texts_and_mentions() {
    let config = config().dingtalk_robot;
    let (request, label, _) = sent(send_dingtalk_robot_text(&config, "hi"));
    assert_eq!(request.url, "https://oapi.dingtalk.com/robot/send?access_token=AT");
    assert_eq!(
        json_body(request),
        json(
            r#"{"msgtype":"text","text":{"content":"hi"},
                "at":{"atMobiles":["13800138000","13900139000"],"isAtAll":false}}"#
        )
    );
    assert_eq!(label, "钉钉群自定义机器人");
}

#[test]
fn robots_of_dingtalk_with_a_secret_get_signed_addresses() {
    let mut config = config().dingtalk_robot;
    config.secret = " SECabc ".to_string();
    let (request, _, _) = sent(send_dingtalk_robot_text_at(&config, "hi", 1700000000123));
    assert_eq!(
        request.url,
        "https://oapi.dingtalk.com/robot/send?access_token=AT&timestamp=1700000000123\
         &sign=IqXBU%2FaLfwMA3S%2FtDcfRmHx5vWHw9Y1aOgFLBr1Ti9w%3D"
    );
    let (request, _, _) = sent(send_dingtalk_robot_sms(&config, &sms(), false));
    assert!(request.url.contains("&timestamp="));
    assert!(request.url.contains("&sign="));
}

#[test]
fn signatures_begin_or_extend_a_query() {
    assert_eq!(sign_url("https://x/".to_string(), 5, "a="), "https://x/?timestamp=5&sign=a%3D");
    assert_eq!(sign_url("https://x/?".to_string(), 5, "a"), "https://x/?&timestamp=5&sign=a");
}

#[test]
fn robots_of_dingtalk_corporations_need_a_token_first() {
    let mut config = config().dingtalk_app;
    match send_dingtalk_app_sms(&config, &sms(), false) {
        Step::DingtalkToken(request, payload) => {
            assert_eq!(json_body(request), json(r#"{"appKey":"key","appSecret":"secret"}"#));
            assert_eq!(payload["robotCode"], "key");
            assert_eq!(payload["openConversationId"], "cid");
            assert_eq!(payload["msgKey"], "sampleText");
            assert_eq!(payload["msgParam"], r#"{"content":"sms hi \"you\""}"#);
        }
        _ => panic!("a token is needed"),
    }
    config.robot_code = " robot ".to_string();
    config.msg_key = " sampleMarkdown ".to_string();
    config.common.sms_template = "\u{1}\u{8}\u{c}\n\r\t\\/\u{7f}字".to_string();
    match send_dingtalk_app_sms(&config, &sms(), false) {
        Step::DingtalkToken(_, payload) => {
            assert_eq!(payload["robotCode"], "robot");
            assert_eq!(payload["msgKey"], "sampleMarkdown");
            assert_eq!(
                payload["msgParam"],
                "{\"content\":\"\\u0001\\b\\f\\n\\r\\t\\\\/\u{7f}字\"}"
            );
        }
        _ => panic!("a token is needed"),
    }
}

#[test]
fn robots_of_dingtalk_corporations_need_a_key_a_secret_and_a_conversation() {
    let missing = "钉钉 AppKey、AppSecret 或 OpenConversationId 未配置";
    let mut changed = config().dingtalk_app;
    changed.app_key = String::new();
    assert_eq!(refusal(send_dingtalk_app_ddns(&changed, &event())), missing);
    let mut changed = config().dingtalk_app;
    changed.app_secret = String::new();
    assert_eq!(refusal(send_dingtalk_app_ddns(&changed, &event())), missing);
    let mut changed = config().dingtalk_app;
    changed.open_conversation_id = String::new();
    assert_eq!(refusal(send_dingtalk_app_ddns(&changed, &event())), missing);
}

#[test]
fn robots_of_feishu_get_texts() {
    let (request, label, _) = sent(send_feishu_robot_text(&config().feishu_robot, "hi"));
    assert_eq!(request.url, "https://open.feishu.cn/open-apis/bot/v2/hook/FT");
    assert_eq!(json_body(request), json(r#"{"msg_type":"text","content":{"text":"hi"}}"#));
    assert_eq!(label, "飞书机器人");
}

#[test]
fn robots_of_feishu_with_a_secret_get_signed_payloads() {
    let mut config = config().feishu_robot;
    config.secret = " fs-secret ".to_string();
    let (request, _, _) = sent(send_feishu_robot_text_at(&config, "hi", 1700000000));
    assert_eq!(
        json_body(request),
        json(
            r#"{"msg_type":"text","content":{"text":"hi"},"timestamp":"1700000000",
                "sign":"ognpFOmraex6LA29Ao14dsiNmmjE3YO4x5e/SX8n9Bw="}"#
        )
    );
}

#[test]
fn robots_need_an_address() {
    let mut wecom = config().wecom_robot;
    wecom.key = String::new();
    assert_eq!(refusal(send_wecom_robot_text(&wecom, "hi")), "Webhook URL 或 Key/Token 未配置");
    let mut dingtalk = config().dingtalk_robot;
    dingtalk.access_token = String::new();
    assert_eq!(
        refusal(send_dingtalk_robot_text(&dingtalk, "hi")),
        "Webhook URL 或 Key/Token 未配置"
    );
    let mut feishu = config().feishu_robot;
    feishu.token = String::new();
    assert_eq!(refusal(send_feishu_robot_text(&feishu, "hi")), "Webhook URL 或 Key/Token 未配置");
}

#[test]
fn bots_of_telegram_get_texts() {
    let mut config = config().telegram;
    let (request, label, failure) = sent(send_telegram_text(&config, "hi"));
    assert_eq!(request.url, "https://api.telegram.org/bot1:B/sendMessage");
    assert_eq!(
        json_body(request),
        json(
            r#"{"chat_id":"-100","text":"hi","disable_web_page_preview":true,
                "parse_mode":"HTML"}"#
        )
    );
    assert_eq!(label, "Telegram");
    assert_eq!(failure, "Failed to send Telegram message: ");
    config.parse_mode = String::new();
    let (request, _, _) = sent(send_telegram_text(&config, "hi"));
    assert_eq!(
        json_body(request),
        json(r#"{"chat_id":"-100","text":"hi","disable_web_page_preview":true}"#)
    );
}

#[test]
fn bots_of_telegram_need_a_token_and_a_chat() {
    let mut changed = config().telegram;
    changed.bot_token = String::new();
    assert_eq!(
        refusal(send_telegram_text(&changed, "hi")),
        "Telegram Bot Token 或 Chat ID 未配置"
    );
    let mut changed = config().telegram;
    changed.chat_id = String::new();
    assert_eq!(
        refusal(send_telegram_text(&changed, "hi")),
        "Telegram Bot Token 或 Chat ID 未配置"
    );
}

#[test]
fn blank_texts_are_not_put_into_payloads() {
    let mut payload = serde_json::Map::new();
    insert_non_empty(&mut payload, "a", " x ");
    insert_non_empty(&mut payload, "b", " ");
    insert_non_empty(&mut payload, "a", "");
    assert_eq!(Value::Object(payload), json(r#"{"a":"x"}"#));
}

#[test]
fn parameters_of_dingtalk_messages_are_read_back() {
    let mut config = config().dingtalk_app;
    for text in ["plain", "\u{0}\u{1f}\u{8}\u{c}\n\r\t", "a \"b\" \\ {c}", "字\u{7f}\u{1F600}", ""] {
        config.common.sms_template = text.to_string();
        match send_dingtalk_app_sms(&config, &sms(), false) {
            Step::DingtalkToken(_, payload) => {
                let parameter = json(payload["msgParam"].as_str().unwrap());
                assert_eq!(parameter.as_object().unwrap().len(), 1);
                assert_eq!(parameter["content"], text);
            }
            _ => panic!("a token is needed"),
        }
    }
}
