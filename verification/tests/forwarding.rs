use notification::config::{
    all_channels, should_send_call, should_send_ddns, should_send_sms, BarkConfig,
    DingtalkAppConfig, DingtalkRobotConfig, FeishuRobotConfig, MessageChannelConfig,
    NotificationChannel, NotificationConfig, PushPlusConfig, TelegramConfig, WebhookConfig,
    WecomAppConfig, WecomRobotConfig,
};
use notification::delivery::{Body, Pending, Reply, Step};
use notification::models::{CallRecord, DdnsEvent, SmsMessage};
use notification::reply::StatusCode;
use notification::sender::{
    send_call_to_channel, send_ddns_to_channel, send_sms_to_channel, send_to_channel, test_message,
    Forward, NotificationSender, Notice,
};

fn common() -> MessageChannelConfig {
    MessageChannelConfig {
        enabled: true,
        forward_sms: true,
        forward_calls: true,
        forward_ddns: true,
        sms_template: "sms {{content}}".to_string(),
        call_template: "call {{caller}}".to_string(),
        ddns_template: "ddns {{domain}}".to_string(),
    }
}

fn config() -> NotificationConfig {
    let text = |text: &str| text.to_string();
    NotificationConfig {
        webhook: WebhookConfig {
            enabled: true,
            forward_sms: true,
            forward_calls: true,
            forward_ddns: true,
            url: text(" https://hook.example/x "),
            headers: vec![],
            secret: text(""),
            sms_template: text("{\"sms\":\"{{content}}\"}"),
            call_template: text("{\"call\":\"{{caller}}\"}"),
            ddns_template: text("{\"ddns\":\"{{domain}}\"}"),
        },
        bark: BarkConfig {
            common: common(),
            server_url: text(" https://api.day.app// "),
            device_key: text(" a/b "),
            title_template: text("from {{sender}}"),
            group: text(""),
            sound: text(" bell "),
            level: text(""),
            icon: text(""),
            click_url: text(" "),
            auto_copy: false,
            copy: text(""),
            save_history: false,
        },
        pushplus: PushPlusConfig {
            common: common(),
            title_template: text("from {{sender}}"),
            token: text(" PT "),
            topic: text("T"),
            template: text(""),
            channel: text("mail"),
            option: text(""),
            callback_url: text(" https://back.example "),
        },
        wecom_app: WecomAppConfig {
            common: common(),
            corp_id: text(" corp "),
            agent_id: text(" 1000002 "),
            secret: text(" secret "),
            to_user: text(" "),
            to_party: text(" 2 "),
            to_tag: text(""),
            safe: true,
        },
        wecom_robot: WecomRobotConfig { common: common(), webhook_url: text(""), key: text("k 1") },
        dingtalk_robot: DingtalkRobotConfig {
            common: common(),
            webhook_url: text(""),
            access_token: text("AT"),
            secret: text(""),
            at_mobiles: text("13800138000, 13900139000,"),
            at_all: false,
        },
        dingtalk_app: DingtalkAppConfig {
            common: common(),
            app_key: text(" key "),
            app_secret: text(" secret "),
            open_conversation_id: text(" cid "),
            robot_code: text(""),
            msg_key: text(""),
        },
        feishu_robot: FeishuRobotConfig {
            common: common(),
            webhook_url: text(""),
            token: text("FT"),
            secret: text(""),
        },
        telegram: TelegramConfig {
            common: common(),
            bot_token: text(" 1:B "),
            chat_id: text(" -100 "),
            disable_web_page_preview: true,
            parse_mode: text(" HTML "),
        },
    }
}

fn sms() -> SmsMessage {
    SmsMessage {
        id: 7,
        direction: "incoming".to_string(),
        phone_number: "+8613800138000".to_string(),
        content: "hi \"you\"".to_string(),
        timestamp: "2026-05-14T16:30:45Z".to_string(),
        status: "received".to_string(),
        pdu: None,
    }
}

fn call() -> CallRecord {
    CallRecord {
        id: 9,
        direction: "incoming".to_string(),
        phone_number: "10086".to_string(),
        duration: 12,
        start_time: "2026-05-14T16:30:45Z".to_string(),
        end_time: None,
        answered: true,
    }
}

fn event() -> DdnsEvent {
    DdnsEvent { domains: vec!["a.example".to_string()], ..DdnsEvent::default() }
}

const LABELS: [&str; 9] = [
    "Webhook",
    "Bark",
    "PushPlus",
    "企业微信应用消息",
    "企业微信群机器人",
    "钉钉群自定义机器人",
    "钉钉企业内机器人",
    "飞书机器人",
    "Telegram机器人",
];

fn commons(config: &mut NotificationConfig) -> [&mut MessageChannelConfig; 8] {
    [
        &mut config.bark.common,
        &mut config.pushplus.common,
        &mut config.wecom_app.common,
        &mut config.wecom_robot.common,
        &mut config.dingtalk_robot.common,
        &mut config.dingtalk_app.common,
        &mut config.feishu_robot.common,
        &mut config.telegram.common,
    ]
}

fn switched_off() -> NotificationConfig {
    let mut config = config();
    config.webhook.enabled = false;
    for common in commons(&mut config) {
        common.enabled = false;
    }
    config
}

fn skipped(step: &Step) -> Option<&str> {
    match step {
        Step::Done(Ok(text)) => Some(text),
        _ => None,
    }
}

fn run(mut forward: Forward, mut deliver: impl FnMut(Step) -> Result<String, String>) -> Result<(), String> {
    while let Some(step) = forward.next() {
        let result = deliver(step);
        forward = forward.record(result);
    }
    forward.finish()
}

#[test]
fn channels_are_served_in_order() {
    let labels: Vec<&str> = all_channels().iter().map(|channel| channel.label()).collect();
    assert_eq!(labels, LABELS);
}

#[test]
fn switches_decide_unless_forced() {
    let mut switches = common();
    assert!(should_send_sms(&switches, false));
    assert!(should_send_call(&switches, false));
    assert!(should_send_ddns(&switches));
    switches.forward_sms = false;
    switches.forward_calls = false;
    switches.forward_ddns = false;
    assert!(!should_send_sms(&switches, false));
    assert!(!should_send_call(&switches, false));
    assert!(!should_send_ddns(&switches));
    assert!(should_send_sms(&switches, true));
    assert!(should_send_call(&switches, true));
    switches.forward_sms = true;
    switches.enabled = false;
    assert!(!should_send_sms(&switches, false));
}

#[test]
fn channels_that_are_switched_off_are_skipped() {
    let config = switched_off();
    assert!(config.can_sign());
    for (channel, label) in all_channels().into_iter().zip(LABELS) {
        let short = if label == "Telegram机器人" { "Telegram" } else { label };
        let text = format!("{} skipped", short);
        let step = send_sms_to_channel(channel, &config, &sms(), false);
        assert_eq!(skipped(&step), Some(text.as_str()));
        let step = send_call_to_channel(channel, &config, &call(), false);
        assert_eq!(skipped(&step), Some(text.as_str()));
        let step = send_ddns_to_channel(channel, &config, &event());
        let text = text.replace("企业内机器人", "企业内部机器人");
        assert_eq!(skipped(&step), Some(text.as_str()));
    }
}

#[test]
fn each_kind_of_notification_has_its_switch() {
    let mut config = config();
    config.webhook.forward_calls = false;
    for common in commons(&mut config) {
        common.forward_calls = false;
    }
    for channel in all_channels() {
        assert!(skipped(&send_to_channel(channel, &config, &Notice::Sms(&sms()))).is_none());
        assert!(skipped(&send_to_channel(channel, &config, &Notice::Call(&call()))).is_some());
        assert!(skipped(&send_to_channel(channel, &config, &Notice::Ddns(&event()))).is_none());
    }
}

#[test]
fn forced_messages_are_the_same_as_forwarded_ones() {
    let (on, off) = (config(), switched_off());
    for channel in all_channels() {
        let forwarded = send_sms_to_channel(channel, &on, &sms(), false);
        let forced = send_sms_to_channel(channel, &off, &sms(), true);
        match (forwarded, forced) {
            (Step::Send(a, _), Step::Send(b, _)) => {
                assert_eq!(a.url, b.url);
                assert_eq!(a.headers, b.headers);
                match (a.body, b.body) {
                    (Body::Text(a), Body::Text(b)) => assert_eq!(a, b),
                    (Body::Json(a), Body::Json(b)) => assert_eq!(a, b),
                    _ => panic!("the bodies are alike"),
                }
            }
            (Step::WecomToken(a), Step::WecomToken(b)) => assert_eq!(a.payload, b.payload),
            (Step::DingtalkToken(_, a), Step::DingtalkToken(_, b)) => assert_eq!(a, b),
            _ => panic!("the steps are alike"),
        }
    }
}

#[test]
fn a_test_is_sent_whatever_the_switches_say() {
    let sender = NotificationSender::new();
    let config = switched_off();
    for channel in all_channels() {
        assert!(skipped(&sender.test_channel(channel, &config)).is_none());
    }
    match sender.test_channel(NotificationChannel::Webhook, &config) {
        Step::Send(request, _) => assert!(matches!(
            request.body,
            Body::Text(text) if text == "{\"sms\":\"这是一条测试短信 (Notification Test)\"}"
        )),
        _ => panic!("the test is sent"),
    }
}

#[test]
fn the_test_message_is_an_incoming_one() {
    let message = test_message("now".to_string());
    assert_eq!(message.id, 0);
    assert_eq!(message.direction, "incoming");
    assert_eq!(message.phone_number, "+8613800138000");
    assert_eq!(message.content, "这是一条测试短信 (Notification Test)");
    assert_eq!(message.timestamp, "now");
    assert_eq!(message.status, "received");
    assert_eq!(message.pdu, None);
}

#[test]
fn forwarding_serves_every_channel() {
    let sender = NotificationSender::new();
    let config = config();
    let message = sms();
    let mut steps: Vec<Step> = vec![];
    let result = run(sender.forward_sms(&config, &message), |step| {
        steps.push(step);
        Ok("sent".to_string())
    });
    assert_eq!(result, Ok(()));
    assert_eq!(steps.len(), 9);
    let label = |step: &Step| match step {
        Step::Send(_, Pending::Message { label, .. }) => label.clone(),
        Step::WecomToken(_) => "token of WeCom".to_string(),
        Step::DingtalkToken(_, _) => "token of DingTalk".to_string(),
        _ => panic!("something is sent"),
    };
    let labels: Vec<String> = steps.iter().map(label).collect();
    assert_eq!(
        labels,
        vec![
            "Webhook",
            "Bark",
            "PushPlus",
            "token of WeCom",
            "企业微信群机器人",
            "钉钉群自定义机器人",
            "token of DingTalk",
            "飞书机器人",
            "Telegram",
        ]
    );
}

#[test]
fn forwarding_reports_the_failures_in_order() {
    let sender = NotificationSender::new();
    let config = config();
    let event = event();
    let mut served = 0;
    let result = run(sender.forward_ddns_event(&config, &event), |_| {
        served += 1;
        if served == 2 || served == 9 {
            Err(format!("failure {}", served))
        } else {
            Ok(String::new())
        }
    });
    assert_eq!(result, Err("Bark: failure 2; Telegram机器人: failure 9".to_string()));
}

#[test]
fn forwarding_to_nobody_goes_well() {
    let sender = NotificationSender::new();
    let config = switched_off();
    let call = call();
    let result = run(sender.forward_call(&config, &call), |step| match step {
        Step::Done(result) => result,
        _ => panic!("nothing is sent"),
    });
    assert_eq!(result, Ok(()));
}

#[test]
fn an_incomplete_configuration_is_reported() {
    let sender = NotificationSender::new();
    let mut config = switched_off();
    config.telegram.common.enabled = true;
    config.telegram.chat_id = String::new();
    let call = call();
    let result = run(sender.forward_call(&config, &call), |step| match step {
        Step::Done(result) => result,
        _ => panic!("nothing is sent"),
    });
    assert_eq!(result, Err("Telegram机器人: Telegram Bot Token 或 Chat ID 未配置".to_string()));
}

#[test]
fn answers_end_a_delivery() {
    let mut sender = NotificationSender::new();
    let mut outcome = |reply: Reply| {
        let pending = Pending::Message {
            label: "Bark".to_string(),
            failure: "Failed to send Bark message: ".to_string(),
        };
        match sender.resume(pending, reply) {
            Step::Done(result) => result,
            _ => panic!("the delivery is over"),
        }
    };
    let status = StatusCode::from_u16(200).unwrap();
    assert_eq!(
        outcome(Reply::Failed("timeout".to_string())),
        Err("Failed to send Bark message: timeout".to_string())
    );
    assert_eq!(
        outcome(Reply::Answered(status, r#"{"code":200}"#.to_string())),
        Ok("Bark test successful (status: 200 OK)".to_string())
    );
}
