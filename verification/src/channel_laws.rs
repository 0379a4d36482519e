//! What each channel is sent: the address, and every entry of the payload.
use crate::channels::bark::bark_message_step;
use crate::channels::dingtalk_app::{dingtalk_app_text_step, dingtalk_token_request};
use crate::channels::dingtalk_robot::{dingtalk_robot_text_step, signed_url};
use crate::channels::feishu_robot::{feishu_robot_text_step, signed_payload};
use crate::channels::pushplus::pushplus_message_step;
use crate::channels::robot::robot_url;
use crate::channels::telegram::telegram_text_step;
use crate::channels::webhook::{has_content_type, names_content_type, webhook_step};
use crate::channels::wecom_app::wecom_app_text_step;
use crate::channels::wecom_robot::wecom_robot_text_step;
use crate::config::{
    BarkConfig, DingtalkAppConfig, DingtalkRobotConfig, FeishuRobotConfig, MessageChannelConfig,
    NotificationChannel, NotificationConfig, PushPlusConfig, TelegramConfig, WebhookConfig,
    WecomAppConfig, WecomRobotConfig,
};
use crate::default_template_laws::{is_writable_event, law_default_json_writes_the_text};
use crate::delivery::{header_views, json_step, BodyView, Method, PendingView, RequestView, StepView};
use crate::encoding::{base64_text, escaped, hashed_writes, hmac_sha256, percent_encoded};
use crate::json::{json_field, one_text, quoted, read_json, with_non_empty, Json};
use crate::models::DdnsEvent;
use crate::sender::{call_step, ddns_step, sms_step, Notice};
use crate::template_laws::{ddns_values, law_ddns_values_are_filled_in_turn};
use crate::signing::{dingtalk_signature, feishu_signature};
use crate::templates::{call_text, ddns_text, filled, sms_text, Filling};
use crate::text::{
    csv_items, hex_text, is_blank, natural_text, same_ignoring_ascii_case, trimmed,
    without_trailing, written_i64,
};
use std::collections::hash_map::DefaultHasher;
use vstd::prelude::*;
use vstd::std_specs::hash::DefaultHasherAdditionalSpecFns;
use vstd::utf8::encode_utf8;

verus! {

/// What a notification needs on a channel, while the system clock shows a time.
pub open spec fn step_of(
    channel: NotificationChannel,
    config: NotificationConfig,
    notice: Notice<'_>,
    force: bool,
    secs: u64,
    millis: u128,
) -> StepView {
    match notice {
        Notice::Sms(message) => sms_step(channel, config, *message, force, secs, millis),
        Notice::Call(call) => call_step(channel, config, *call, force, secs, millis),
        Notice::Ddns(event) => ddns_step(channel, config, *event, secs, millis),
    }
}

/// Whether a notification is to be sent on a message channel: its switches are on, or it is a
/// message or call that is forced.
pub open spec fn is_due(common: MessageChannelConfig, notice: Notice<'_>, force: bool) -> bool {
    match notice {
        Notice::Sms(_) => force || (common.enabled && common.forward_sms),
        Notice::Call(_) => force || (common.enabled && common.forward_calls),
        Notice::Ddns(_) => common.enabled && common.forward_ddns,
    }
}

/// The template for the kind of a notification, filled with it.
pub open spec fn text_of(common: MessageChannelConfig, notice: Notice<'_>) -> Seq<char> {
    match notice {
        Notice::Sms(message) => sms_text(common.sms_template@, *message, false),
        Notice::Call(call) => call_text(common.call_template@, *call, false),
        Notice::Ddns(event) => ddns_text(common.ddns_template@, *event, false),
    }
}

/// The title of a notification: the template for messages filled, and a fixed one for the
/// other kinds.
pub open spec fn title_of(title_template: Seq<char>, notice: Notice<'_>) -> Seq<char> {
    match notice {
        Notice::Sms(message) => sms_text(title_template, *message, false),
        Notice::Call(_) => "SimAdmin 来电通知"@,
        Notice::Ddns(_) => "SimAdmin DDNS 通知"@,
    }
}

/// Whether a step posts JSON to an address, without headers, and is reported under a label.
pub open spec fn posts_json(step: StepView, label: Seq<char>, url: Seq<char>) -> bool {
    &&& step matches StepView::Send(request, pending)
    &&& request.method == Method::Post
    &&& request.url == url
    &&& request.headers.len() == 0
    &&& request.body is Json
    &&& pending == (PendingView::Message {
        label,
        failure: "Failed to send "@ + label + " message: "@,
    })
}

/// The JSON that a step posts.
pub open spec fn posted(step: StepView) -> Json {
    step->Send_0.body->Json_0
}

/// Whether an entry of an object is a text.
pub open spec fn has_text(payload: Json, key: Seq<char>, text: Seq<char>) -> bool {
    json_field(payload, key) == Some(Json::Text(text))
}

/// Whether an entry of an object is a text without the white space around it, or missing where
/// nothing is left of the text.
pub open spec fn has_text_unless_blank(payload: Json, key: Seq<char>, text: Seq<char>) -> bool {
    if is_blank(text) {
        json_field(payload, key) is None
    } else {
        has_text(payload, key, trimmed(text))
    }
}

/// Whether an entry of an object is an object with one text.
pub open spec fn has_one_text(
    payload: Json,
    key: Seq<char>,
    inner_key: Seq<char>,
    text: Seq<char>,
) -> bool {
    &&& json_field(payload, key) matches Some(inner)
    &&& has_text(inner, inner_key, text)
    &&& forall|other: Seq<char>| json_field(inner, other) is Some ==> other == inner_key
}

/// JSON is posted to an address under a label.
pub proof fn law_json_is_posted(label: Seq<char>, url: Seq<char>, payload: Json)
    ensures
        posts_json(json_step(label, url, payload), label, url),
        posted(json_step(label, url, payload)) == payload,
{
}

/// A text goes under its key without the white space around it, or not at all where nothing is
/// left of it; other entries stay. An object with one text has that text and nothing else.
pub proof fn law_text_goes_under_its_key(
    entries: Map<Seq<char>, Json>,
    key: Seq<char>,
    text: Seq<char>,
    other: Seq<char>,
)
    ensures
        ({
            let payload = Json::Object(with_non_empty(entries, key, text));
            &&& !is_blank(text) ==> has_text(payload, key, trimmed(text))
            &&& is_blank(text) || other != key ==> json_field(payload, other) == json_field(
                Json::Object(entries),
                other,
            )
            &&& has_text(one_text(key, text), key, text)
            &&& other != key ==> json_field(one_text(key, text), other) is None
        }),
{
}

/// Whether a step posts a text to a Telegram bot.
pub open spec fn posts_to_telegram(step: StepView, config: TelegramConfig, text: Seq<char>) -> bool {
    let payload = posted(step);
    &&& posts_json(
        step,
        "Telegram"@,
        "https://api.telegram.org/bot"@ + trimmed(config.bot_token@) + "/sendMessage"@,
    )
    &&& has_text(payload, "chat_id"@, trimmed(config.chat_id@))
    &&& has_text(payload, "text"@, text)
    &&& json_field(payload, "disable_web_page_preview"@) == Some(
        Json::Bool(config.disable_web_page_preview),
    )
    &&& has_text_unless_blank(payload, "parse_mode"@, config.parse_mode@)
    &&& forall|key: Seq<char>|
        json_field(payload, key) is Some ==> key == "chat_id"@ || key == "text"@ || key
            == "disable_web_page_preview"@ || key == "parse_mode"@
}

/// A text is posted to a Telegram bot that has a token and a chat.
pub proof fn law_text_is_posted_to_telegram(config: TelegramConfig, text: Seq<char>)
    ensures
        ({
            let step = telegram_text_step(config, text);
            if is_blank(config.bot_token@) || is_blank(config.chat_id@) {
                step == StepView::Done(Err("Telegram Bot Token 或 Chat ID 未配置"@))
            } else {
                posts_to_telegram(step, config, text)
            }
        }),
{
    reveal_strlit("chat_id");
    reveal_strlit("text");
    reveal_strlit("disable_web_page_preview");
    reveal_strlit("parse_mode");
    assert("chat_id"@.len() == 7);
    assert("text"@.len() == 4);
    assert("disable_web_page_preview"@.len() == 24);
    assert("parse_mode"@.len() == 10);
}

/// A Telegram bot with a token and a chat is sent the notification in the template for its
/// kind, and nothing where it is not due.
pub proof fn law_telegram_is_sent_the_text(
    config: NotificationConfig,
    notice: Notice<'_>,
    force: bool,
    secs: u64,
    millis: u128,
)
    ensures
        ({
            let step = step_of(
                NotificationChannel::Telegram,
                config,
                notice,
                force,
                secs,
                millis,
            );
            let telegram = config.telegram;
            if !is_due(telegram.common, notice, force) {
                step == StepView::Done(Ok("Telegram skipped"@))
            } else if is_blank(telegram.bot_token@) || is_blank(telegram.chat_id@) {
                step == StepView::Done(Err("Telegram Bot Token 或 Chat ID 未配置"@))
            } else {
                posts_to_telegram(step, telegram, text_of(telegram.common, notice))
            }
        }),
{
    law_text_is_posted_to_telegram(config.telegram, text_of(config.telegram.common, notice));
}

/// Whether a step posts a message to Bark.
pub open spec fn posts_to_bark(
    step: StepView,
    config: BarkConfig,
    title: Seq<char>,
    body: Seq<char>,
) -> bool {
    let payload = posted(step);
    &&& posts_json(
        step,
        "Bark"@,
        without_trailing(trimmed(config.server_url@), '/') + "/"@ + percent_encoded(
            trimmed(config.device_key@),
        ),
    )
    &&& has_text(payload, "title"@, title)
    &&& has_text(payload, "body"@, body)
    &&& has_text_unless_blank(payload, "group"@, config.group@)
    &&& has_text_unless_blank(payload, "sound"@, config.sound@)
    &&& has_text_unless_blank(payload, "level"@, config.level@)
    &&& has_text_unless_blank(payload, "icon"@, config.icon@)
    &&& has_text_unless_blank(payload, "url"@, config.click_url@)
    &&& json_field(payload, "automaticallyCopy"@) == (if config.auto_copy {
        Some(Json::Int(1))
    } else {
        None
    })
    &&& json_field(payload, "copy"@) == (if !config.auto_copy {
        None
    } else if is_blank(config.copy@) {
        Some(Json::Text(body))
    } else {
        Some(Json::Text(trimmed(config.copy@)))
    })
    &&& json_field(payload, "isArchive"@) == Some(
        Json::Int(
            if config.save_history {
                1
            } else {
                0
            },
        ),
    )
    &&& forall|key: Seq<char>|
        json_field(payload, key) is Some ==> key == "title"@ || key == "body"@ || key == "group"@
            || key == "sound"@ || key == "level"@ || key == "icon"@ || key == "url"@ || key
            == "automaticallyCopy"@ || key == "copy"@ || key == "isArchive"@
}

/// A message is posted to Bark with its title and body.
pub proof fn law_message_is_posted_to_bark(config: BarkConfig, title: Seq<char>, body: Seq<char>)
    ensures
        posts_to_bark(bark_message_step(config, title, body), config, title, body),
{
    reveal_strlit("title");
    reveal_strlit("body");
    reveal_strlit("group");
    reveal_strlit("sound");
    reveal_strlit("level");
    reveal_strlit("icon");
    reveal_strlit("url");
    reveal_strlit("automaticallyCopy");
    reveal_strlit("copy");
    reveal_strlit("isArchive");
    assert("title"@.len() == 5);
    assert("body"@.len() == 4);
    assert("group"@.len() == 5);
    assert("sound"@.len() == 5);
    assert("level"@.len() == 5);
    assert("icon"@.len() == 4);
    assert("url"@.len() == 3);
    assert("automaticallyCopy"@.len() == 17);
    assert("copy"@.len() == 4);
    assert("isArchive"@.len() == 9);
    assert("title"@[0] != "group"@[0]);
    assert("title"@[0] != "sound"@[0]);
    assert("group"@[0] != "sound"@[0]);
    assert("title"@[0] != "level"@[0]);
    assert("group"@[0] != "level"@[0]);
    assert("sound"@[0] != "level"@[0]);
    assert("body"@[0] != "icon"@[0]);
    assert("body"@[0] != "copy"@[0]);
    assert("icon"@[0] != "copy"@[0]);
}

/// Bark with a device key is sent the title and the notification in the template for its kind,
/// and nothing where it is not due.
pub proof fn law_bark_is_sent_the_text(
    config: NotificationConfig,
    notice: Notice<'_>,
    force: bool,
    secs: u64,
    millis: u128,
)
    ensures
        ({
            let step = step_of(
                NotificationChannel::Bark,
                config,
                notice,
                force,
                secs,
                millis,
            );
            let bark = config.bark;
            if !is_due(bark.common, notice, force) {
                step == StepView::Done(Ok("Bark skipped"@))
            } else if is_blank(bark.device_key@) {
                step == StepView::Done(Err("Bark device key is not configured"@))
            } else {
                posts_to_bark(
                    step,
                    bark,
                    title_of(bark.title_template@, notice),
                    text_of(bark.common, notice),
                )
            }
        }),
{
    law_message_is_posted_to_bark(
        config.bark,
        title_of(config.bark.title_template@, notice),
        text_of(config.bark.common, notice),
    );
}

/// Whether a step posts a message to PushPlus.
pub open spec fn posts_to_pushplus(
    step: StepView,
    config: PushPlusConfig,
    title: Seq<char>,
    content: Seq<char>,
) -> bool {
    let payload = posted(step);
    &&& posts_json(step, "PushPlus"@, "https://www.pushplus.plus/send"@)
    &&& has_text(payload, "token"@, trimmed(config.token@))
    &&& has_text(payload, "title"@, title)
    &&& has_text(payload, "content"@, content)
    &&& has_text_unless_blank(payload, "topic"@, config.topic@)
    &&& has_text_unless_blank(payload, "template"@, config.template@)
    &&& has_text_unless_blank(payload, "channel"@, config.channel@)
    &&& has_text_unless_blank(payload, "option"@, config.option@)
    &&& has_text_unless_blank(payload, "callbackUrl"@, config.callback_url@)
    &&& forall|key: Seq<char>|
        json_field(payload, key) is Some ==> key == "token"@ || key == "title"@ || key
            == "content"@ || key == "topic"@ || key == "template"@ || key == "channel"@ || key
            == "option"@ || key == "callbackUrl"@
}

/// A message is posted to PushPlus with its title and content, where there is a token.
pub proof fn law_message_is_posted_to_pushplus(
    config: PushPlusConfig,
    title: Seq<char>,
    content: Seq<char>,
)
    ensures
        ({
            let step = pushplus_message_step(config, title, content);
            if is_blank(config.token@) {
                step == StepView::Done(Err("PushPlus token is not configured"@))
            } else {
                posts_to_pushplus(step, config, title, content)
            }
        }),
{
    reveal_strlit("token");
    reveal_strlit("title");
    reveal_strlit("content");
    reveal_strlit("topic");
    reveal_strlit("template");
    reveal_strlit("channel");
    reveal_strlit("option");
    reveal_strlit("callbackUrl");
    assert("token"@.len() == 5);
    assert("title"@.len() == 5);
    assert("content"@.len() == 7);
    assert("topic"@.len() == 5);
    assert("template"@.len() == 8);
    assert("channel"@.len() == 7);
    assert("option"@.len() == 6);
    assert("callbackUrl"@.len() == 11);
    assert("token"@[1] != "title"@[1]);
    assert("token"@[2] != "topic"@[2]);
    assert("title"@[1] != "topic"@[1]);
    assert("content"@[1] != "channel"@[1]);
}

/// PushPlus with a token is sent the title and the notification in the template for its kind,
/// and nothing where it is not due.
pub proof fn law_pushplus_is_sent_the_text(
    config: NotificationConfig,
    notice: Notice<'_>,
    force: bool,
    secs: u64,
    millis: u128,
)
    ensures
        ({
            let step = step_of(
                NotificationChannel::PushPlus,
                config,
                notice,
                force,
                secs,
                millis,
            );
            let pushplus = config.pushplus;
            if !is_due(pushplus.common, notice, force) {
                step == StepView::Done(Ok("PushPlus skipped"@))
            } else if is_blank(pushplus.token@) {
                step == StepView::Done(Err("PushPlus token is not configured"@))
            } else {
                posts_to_pushplus(
                    step,
                    pushplus,
                    title_of(pushplus.title_template@, notice),
                    text_of(pushplus.common, notice),
                )
            }
        }),
{
    law_message_is_posted_to_pushplus(
        config.pushplus,
        title_of(config.pushplus.title_template@, notice),
        text_of(config.pushplus.common, notice),
    );
}

/// Whether a step is to send a text to an agent of a WeCom application, once there is a token.
pub open spec fn sends_to_wecom_app(
    step: StepView,
    config: WecomAppConfig,
    agent_id: i64,
    text: Seq<char>,
) -> bool {
    &&& step matches StepView::WecomToken(message)
    &&& message.corp_id == trimmed(config.corp_id@)
    &&& message.secret == trimmed(config.secret@)
    &&& !message.retried
    &&& has_text(
        message.payload,
        "touser"@,
        if is_blank(config.to_user@) {
            "@all"@
        } else {
            trimmed(config.to_user@)
        },
    )
    &&& has_text(message.payload, "toparty"@, trimmed(config.to_party@))
    &&& has_text(message.payload, "totag"@, trimmed(config.to_tag@))
    &&& has_text(message.payload, "msgtype"@, "text"@)
    &&& json_field(message.payload, "agentid"@) == Some(Json::Int(agent_id as int))
    &&& has_one_text(message.payload, "text"@, "content"@, text)
    &&& json_field(message.payload, "safe"@) == Some(
        Json::Int(
            if config.safe {
                1
            } else {
                0
            },
        ),
    )
    &&& forall|key: Seq<char>|
        json_field(message.payload, key) is Some ==> key == "touser"@ || key == "toparty"@ || key
            == "totag"@ || key == "msgtype"@ || key == "agentid"@ || key == "text"@ || key
            == "safe"@
}

/// A text is to be sent to a WeCom application that has a corporation, a secret and the number
/// of an agent.
pub proof fn law_text_is_sent_to_wecom_app(config: WecomAppConfig, text: Seq<char>)
    ensures
        ({
            let step = wecom_app_text_step(config, text);
            let agent_id = written_i64(trimmed(config.agent_id@));
            if is_blank(config.corp_id@) || is_blank(config.secret@) || is_blank(
                config.agent_id@,
            ) {
                step == StepView::Done(Err("企业微信 CorpID、AgentID 或 Secret 未配置"@))
            } else if agent_id is None {
                step == StepView::Done(Err("企业微信 AgentID 必须为数字"@))
            } else {
                sends_to_wecom_app(step, config, agent_id->0, text)
            }
        }),
{
    reveal_strlit("touser");
    reveal_strlit("toparty");
    reveal_strlit("totag");
    reveal_strlit("msgtype");
    reveal_strlit("agentid");
    reveal_strlit("text");
    reveal_strlit("content");
    reveal_strlit("safe");
    assert("touser"@.len() == 6);
    assert("toparty"@.len() == 7);
    assert("totag"@.len() == 5);
    assert("msgtype"@.len() == 7);
    assert("agentid"@.len() == 7);
    assert("text"@.len() == 4);
    assert("content"@.len() == 7);
    assert("safe"@.len() == 4);
    assert("toparty"@[0] != "msgtype"@[0]);
    assert("toparty"@[0] != "agentid"@[0]);
    assert("msgtype"@[0] != "agentid"@[0]);
    assert("toparty"@[0] != "content"@[0]);
    assert("msgtype"@[0] != "content"@[0]);
    assert("agentid"@[0] != "content"@[0]);
    assert("text"@[0] != "safe"@[0]);
}

/// An application of WeCom with a corporation, a secret and the number of an agent is to be
/// sent the notification in the template for its kind; nothing is sent where it is not due.
pub proof fn law_wecom_app_is_sent_the_text(
    config: NotificationConfig,
    notice: Notice<'_>,
    force: bool,
    secs: u64,
    millis: u128,
)
    ensures
        ({
            let step = step_of(
                NotificationChannel::WecomApp,
                config,
                notice,
                force,
                secs,
                millis,
            );
            let app = config.wecom_app;
            let agent_id = written_i64(trimmed(app.agent_id@));
            if !is_due(app.common, notice, force) {
                step == StepView::Done(Ok("企业微信应用消息 skipped"@))
            } else if is_blank(app.corp_id@) || is_blank(app.secret@) || is_blank(app.agent_id@) {
                step == StepView::Done(Err("企业微信 CorpID、AgentID 或 Secret 未配置"@))
            } else if agent_id is None {
                step == StepView::Done(Err("企业微信 AgentID 必须为数字"@))
            } else {
                sends_to_wecom_app(step, app, agent_id->0, text_of(app.common, notice))
            }
        }),
{
    law_text_is_sent_to_wecom_app(config.wecom_app, text_of(config.wecom_app.common, notice));
}

/// The address of a robot: the configured one where it is not blank, else the encoded key
/// behind a prefix where that is not blank.
pub open spec fn address_of_robot(
    webhook_url: Seq<char>,
    key: Seq<char>,
    prefix: Seq<char>,
) -> Seq<char> {
    if is_blank(webhook_url) {
        prefix + percent_encoded(trimmed(key))
    } else {
        trimmed(webhook_url)
    }
}

/// A robot has an address exactly if one is configured, or a key.
pub proof fn law_robot_has_an_address_or_a_key(
    webhook_url: Seq<char>,
    key: Seq<char>,
    prefix: Seq<char>,
)
    ensures
        robot_url(webhook_url, key, prefix) == (if is_blank(webhook_url) && is_blank(key) {
            Err("Webhook URL 或 Key/Token 未配置"@)
        } else {
            Ok(address_of_robot(webhook_url, key, prefix))
        }),
{
}

/// Whether a step posts a text to a robot of WeCom.
pub open spec fn posts_to_wecom_robot(
    step: StepView,
    config: WecomRobotConfig,
    text: Seq<char>,
) -> bool {
    let payload = posted(step);
    &&& posts_json(
        step,
        "企业微信群机器人"@,
        address_of_robot(
            config.webhook_url@,
            config.key@,
            "https://qyapi.weixin.qq.com/cgi-bin/webhook/send?key="@,
        ),
    )
    &&& has_text(payload, "msgtype"@, "text"@)
    &&& has_one_text(payload, "text"@, "content"@, text)
    &&& forall|key: Seq<char>|
        json_field(payload, key) is Some ==> key == "msgtype"@ || key == "text"@
}

/// A text is posted to a robot of WeCom that has an address or a key.
pub proof fn law_text_is_posted_to_wecom_robot(config: WecomRobotConfig, text: Seq<char>)
    ensures
        ({
            let step = wecom_robot_text_step(config, text);
            if is_blank(config.webhook_url@) && is_blank(config.key@) {
                step == StepView::Done(Err("Webhook URL 或 Key/Token 未配置"@))
            } else {
                posts_to_wecom_robot(step, config, text)
            }
        }),
{
    reveal_strlit("msgtype");
    reveal_strlit("text");
    reveal_strlit("content");
    assert("msgtype"@.len() == 7);
    assert("text"@.len() == 4);
    assert("content"@.len() == 7);
    assert("msgtype"@[0] != "content"@[0]);
}

/// A robot of WeCom with an address or a key is sent the notification in the template for its
/// kind, and nothing where it is not due.
pub proof fn law_wecom_robot_is_sent_the_text(
    config: NotificationConfig,
    notice: Notice<'_>,
    force: bool,
    secs: u64,
    millis: u128,
)
    ensures
        ({
            let step = step_of(
                NotificationChannel::WecomRobot,
                config,
                notice,
                force,
                secs,
                millis,
            );
            let robot = config.wecom_robot;
            if !is_due(robot.common, notice, force) {
                step == StepView::Done(Ok("企业微信群机器人 skipped"@))
            } else if is_blank(robot.webhook_url@) && is_blank(robot.key@) {
                step == StepView::Done(Err("Webhook URL 或 Key/Token 未配置"@))
            } else {
                posts_to_wecom_robot(step, robot, text_of(robot.common, notice))
            }
        }),
{
    law_text_is_posted_to_wecom_robot(
        config.wecom_robot,
        text_of(config.wecom_robot.common, notice),
    );
}

/// Whether a payload mentions phone numbers, and everybody or not.
pub open spec fn mentions(payload: Json, numbers: Seq<Seq<char>>, everybody: bool) -> bool {
    &&& json_field(payload, "at"@) matches Some(at)
    &&& json_field(at, "isAtAll"@) == Some(Json::Bool(everybody))
    &&& json_field(at, "atMobiles"@) matches Some(Json::Array(items))
    &&& items.len() == numbers.len()
    &&& forall|i: int| 0 <= i < numbers.len() ==> #[trigger] items[i] == Json::Text(numbers[i])
    &&& forall|key: Seq<char>|
        json_field(at, key) is Some ==> key == "isAtAll"@ || key == "atMobiles"@
}

/// The signature of DingTalk is that of the time and the secret on two lines, signed with the
/// secret; that of Feishu is of nothing, signed with those two lines. White space around the
/// secret does not count.
pub proof fn law_signature_is_of_the_time_and_the_secret(timestamp: nat, secret: Seq<char>)
    ensures
        dingtalk_signature(timestamp, secret) == base64_text(
            hmac_sha256(
                encode_utf8(trimmed(secret)),
                encode_utf8(natural_text(timestamp) + "\n"@ + trimmed(secret)),
            ),
        ),
        feishu_signature(timestamp, secret) == base64_text(
            hmac_sha256(
                encode_utf8(natural_text(timestamp) + "\n"@ + trimmed(secret)),
                Seq::<u8>::empty(),
            ),
        ),
{
}

/// A signed address is the address, a question mark or, where there is one already, an
/// ampersand, and then the time and the encoded signature.
pub proof fn law_signed_address_has_time_and_signature(
    url: Seq<char>,
    timestamp: nat,
    signature: Seq<char>,
)
    ensures
        !url.contains('?') ==> signed_url(url, timestamp, signature) == url + "?"@ + "timestamp="@
            + natural_text(timestamp) + "&sign="@ + percent_encoded(signature),
        url.contains('?') ==> signed_url(url, timestamp, signature) == url + "&"@ + "timestamp="@
            + natural_text(timestamp) + "&sign="@ + percent_encoded(signature),
{
}

/// Whether a step posts a text to a robot of DingTalk. However the address was configured, a
/// secret that is not blank has the time in milliseconds and a signature added to it.
pub open spec fn posts_to_dingtalk_robot(
    step: StepView,
    config: DingtalkRobotConfig,
    text: Seq<char>,
    millis: u128,
) -> bool {
    let payload = posted(step);
    let secret = trimmed(config.secret@);
    let address = address_of_robot(
        config.webhook_url@,
        config.access_token@,
        "https://oapi.dingtalk.com/robot/send?access_token="@,
    );
    let separator = if address.contains('?') {
        "&"@
    } else {
        "?"@
    };
    let signature = base64_text(
        hmac_sha256(
            encode_utf8(secret),
            encode_utf8(natural_text(millis as nat) + "\n"@ + secret),
        ),
    );
    &&& posts_json(
        step,
        "钉钉群自定义机器人"@,
        if secret.len() == 0 {
            address
        } else {
            address + separator + "timestamp="@ + natural_text(millis as nat) + "&sign="@
                + percent_encoded(signature)
        },
    )
    &&& has_text(payload, "msgtype"@, "text"@)
    &&& has_one_text(payload, "text"@, "content"@, text)
    &&& mentions(payload, csv_items(config.at_mobiles@), config.at_all)
    &&& forall|key: Seq<char>|
        json_field(payload, key) is Some ==> key == "msgtype"@ || key == "text"@ || key == "at"@
}

/// A text is posted to a robot of DingTalk that has an address or an access token.
pub proof fn law_text_is_posted_to_dingtalk_robot(
    config: DingtalkRobotConfig,
    text: Seq<char>,
    millis: u128,
)
    ensures
        ({
            let step = dingtalk_robot_text_step(config, text, millis);
            if is_blank(config.webhook_url@) && is_blank(config.access_token@) {
                step == StepView::Done(Err("Webhook URL 或 Key/Token 未配置"@))
            } else {
                posts_to_dingtalk_robot(step, config, text, millis)
            }
        }),
{
    reveal_strlit("msgtype");
    reveal_strlit("text");
    reveal_strlit("content");
    reveal_strlit("at");
    reveal_strlit("atMobiles");
    reveal_strlit("isAtAll");
    assert("msgtype"@.len() == 7);
    assert("text"@.len() == 4);
    assert("content"@.len() == 7);
    assert("at"@.len() == 2);
    assert("atMobiles"@.len() == 9);
    assert("isAtAll"@.len() == 7);
    assert("msgtype"@[0] != "content"@[0]);
    assert("msgtype"@[0] != "isAtAll"@[0]);
    assert("content"@[0] != "isAtAll"@[0]);
}

/// A robot of DingTalk with an address or an access token is sent the notification in the
/// template for its kind, and nothing where it is not due.
pub proof fn law_dingtalk_robot_is_sent_the_text(
    config: NotificationConfig,
    notice: Notice<'_>,
    force: bool,
    secs: u64,
    millis: u128,
)
    ensures
        ({
            let step = step_of(
                NotificationChannel::DingtalkRobot,
                config,
                notice,
                force,
                secs,
                millis,
            );
            let robot = config.dingtalk_robot;
            if !is_due(robot.common, notice, force) {
                step == StepView::Done(Ok("钉钉群自定义机器人 skipped"@))
            } else if is_blank(robot.webhook_url@) && is_blank(robot.access_token@) {
                step == StepView::Done(Err("Webhook URL 或 Key/Token 未配置"@))
            } else {
                posts_to_dingtalk_robot(step, robot, text_of(robot.common, notice), millis)
            }
        }),
{
    law_text_is_posted_to_dingtalk_robot(
        config.dingtalk_robot,
        text_of(config.dingtalk_robot.common, notice),
        millis,
    );
}

/// Whether a request asks DingTalk for the token of an application.
pub open spec fn asks_dingtalk_for_a_token(
    request: RequestView,
    app_key: Seq<char>,
    app_secret: Seq<char>,
) -> bool {
    &&& request.method == Method::Post
    &&& request.url == "https://api.dingtalk.com/v1.0/oauth2/accessToken"@
    &&& request.headers.len() == 0
    &&& request.body matches BodyView::Json(json)
    &&& has_text(json, "appKey"@, app_key)
    &&& has_text(json, "appSecret"@, app_secret)
    &&& forall|key: Seq<char>|
        json_field(json, key) is Some ==> key == "appKey"@ || key == "appSecret"@
}

/// DingTalk is asked for a token by the key and the secret of an application.
pub proof fn law_dingtalk_is_asked_for_a_token(app_key: Seq<char>, app_secret: Seq<char>)
    ensures
        asks_dingtalk_for_a_token(
            dingtalk_token_request(app_key, app_secret),
            app_key,
            app_secret,
        ),
{
    reveal_strlit("appKey");
    reveal_strlit("appSecret");
    assert("appKey"@.len() == 6);
    assert("appSecret"@.len() == 9);
}

/// Whether a step is to send a text to a robot of a DingTalk corporation, once there is a token.
pub open spec fn sends_to_dingtalk_app(
    step: StepView,
    config: DingtalkAppConfig,
    text: Seq<char>,
) -> bool {
    &&& step matches StepView::DingtalkToken(request, payload)
    &&& asks_dingtalk_for_a_token(request, trimmed(config.app_key@), trimmed(config.app_secret@))
    &&& has_text(
        payload,
        "robotCode"@,
        if is_blank(config.robot_code@) {
            trimmed(config.app_key@)
        } else {
            trimmed(config.robot_code@)
        },
    )
    &&& has_text(payload, "openConversationId"@, trimmed(config.open_conversation_id@))
    &&& has_text(
        payload,
        "msgKey"@,
        if is_blank(config.msg_key@) {
            "sampleText"@
        } else {
            trimmed(config.msg_key@)
        },
    )
    &&& has_text(
        payload,
        "msgParam"@,
        seq!['{'] + quoted("content"@) + seq![':'] + quoted(text) + seq!['}'],
    )
    &&& forall|key: Seq<char>|
        json_field(payload, key) is Some ==> key == "robotCode"@ || key == "openConversationId"@
            || key == "msgKey"@ || key == "msgParam"@
}

/// A text is to be sent to a robot of a DingTalk corporation that has a key, a secret and a
/// conversation.
pub proof fn law_text_is_sent_to_dingtalk_app(config: DingtalkAppConfig, text: Seq<char>)
    ensures
        ({
            let step = dingtalk_app_text_step(config, text);
            if is_blank(config.app_key@) || is_blank(config.app_secret@) || is_blank(
                config.open_conversation_id@,
            ) {
                step == StepView::Done(
                    Err("钉钉 AppKey、AppSecret 或 OpenConversationId 未配置"@),
                )
            } else {
                sends_to_dingtalk_app(step, config, text)
            }
        }),
{
    law_dingtalk_is_asked_for_a_token(trimmed(config.app_key@), trimmed(config.app_secret@));
    reveal_strlit("robotCode");
    reveal_strlit("openConversationId");
    reveal_strlit("msgKey");
    reveal_strlit("msgParam");
    assert("robotCode"@.len() == 9);
    assert("openConversationId"@.len() == 18);
    assert("msgKey"@.len() == 6);
    assert("msgParam"@.len() == 8);
}

/// A robot of a DingTalk corporation with a key, a secret and a conversation is to be sent the
/// notification in the template for its kind; nothing is sent where it is not due.
pub proof fn law_dingtalk_app_is_sent_the_text(
    config: NotificationConfig,
    notice: Notice<'_>,
    force: bool,
    secs: u64,
    millis: u128,
)
    ensures
        ({
            let step = step_of(
                NotificationChannel::DingtalkApp,
                config,
                notice,
                force,
                secs,
                millis,
            );
            let app = config.dingtalk_app;
            if !is_due(app.common, notice, force) {
                step == StepView::Done(
                    Ok(
                        if notice is Ddns {
                            "钉钉企业内部机器人 skipped"@
                        } else {
                            "钉钉企业内机器人 skipped"@
                        },
                    ),
                )
            } else if is_blank(app.app_key@) || is_blank(app.app_secret@) || is_blank(
                app.open_conversation_id@,
            ) {
                step == StepView::Done(
                    Err("钉钉 AppKey、AppSecret 或 OpenConversationId 未配置"@),
                )
            } else {
                sends_to_dingtalk_app(step, app, text_of(app.common, notice))
            }
        }),
{
    law_text_is_sent_to_dingtalk_app(
        config.dingtalk_app,
        text_of(config.dingtalk_app.common, notice),
    );
}

/// A signed payload has the time and the signature, and else what it had before.
pub proof fn law_signed_payload_has_time_and_signature(
    payload: Map<Seq<char>, Json>,
    timestamp: nat,
    signature: Seq<char>,
)
    ensures
        ({
            let signed = signed_payload(payload, timestamp, signature);
            &&& has_text(Json::Object(signed), "timestamp"@, natural_text(timestamp))
            &&& has_text(Json::Object(signed), "sign"@, signature)
            &&& forall|key: Seq<char>|
                key != "timestamp"@ && key != "sign"@ ==> #[trigger] json_field(
                    Json::Object(signed),
                    key,
                ) == json_field(Json::Object(payload), key)
        }),
{
    reveal_strlit("timestamp");
    reveal_strlit("sign");
    assert("timestamp"@.len() == 9);
    assert("sign"@.len() == 4);
}

/// Whether a step posts a text to a robot of Feishu. A secret that is not blank has the time in
/// seconds and a signature added to the payload.
pub open spec fn posts_to_feishu_robot(
    step: StepView,
    config: FeishuRobotConfig,
    text: Seq<char>,
    secs: u64,
) -> bool {
    let payload = posted(step);
    let secret = trimmed(config.secret@);
    &&& posts_json(
        step,
        "飞书机器人"@,
        address_of_robot(
            config.webhook_url@,
            config.token@,
            "https://open.feishu.cn/open-apis/bot/v2/hook/"@,
        ),
    )
    &&& has_text(payload, "msg_type"@, "text"@)
    &&& has_one_text(payload, "content"@, "text"@, text)
    &&& if secret.len() == 0 {
        forall|key: Seq<char>|
            json_field(payload, key) is Some ==> key == "msg_type"@ || key == "content"@
    } else {
        &&& has_text(payload, "timestamp"@, natural_text(secs as nat))
        &&& has_text(
            payload,
            "sign"@,
            base64_text(
                hmac_sha256(
                    encode_utf8(natural_text(secs as nat) + "\n"@ + secret),
                    Seq::<u8>::empty(),
                ),
            ),
        )
        &&& forall|key: Seq<char>|
            json_field(payload, key) is Some ==> key == "msg_type"@ || key == "content"@ || key
                == "timestamp"@ || key == "sign"@
    }
}

/// A text is posted to a robot of Feishu that has an address or a token.
pub proof fn law_text_is_posted_to_feishu_robot(
    config: FeishuRobotConfig,
    text: Seq<char>,
    secs: u64,
)
    ensures
        ({
            let step = feishu_robot_text_step(config, text, secs);
            if is_blank(config.webhook_url@) && is_blank(config.token@) {
                step == StepView::Done(Err("Webhook URL 或 Key/Token 未配置"@))
            } else {
                posts_to_feishu_robot(step, config, text, secs)
            }
        }),
{
    reveal_strlit("msg_type");
    reveal_strlit("text");
    reveal_strlit("content");
    reveal_strlit("timestamp");
    reveal_strlit("sign");
    assert("msg_type"@.len() == 8);
    assert("text"@.len() == 4);
    assert("content"@.len() == 7);
    assert("timestamp"@.len() == 9);
    assert("sign"@.len() == 4);
    assert("text"@[0] != "sign"@[0]);
}

/// A robot of Feishu with an address or a token is sent the notification in the template for
/// its kind, and nothing where it is not due.
pub proof fn law_feishu_robot_is_sent_the_text(
    config: NotificationConfig,
    notice: Notice<'_>,
    force: bool,
    secs: u64,
    millis: u128,
)
    ensures
        ({
            let step = step_of(
                NotificationChannel::FeishuRobot,
                config,
                notice,
                force,
                secs,
                millis,
            );
            let robot = config.feishu_robot;
            if !is_due(robot.common, notice, force) {
                step == StepView::Done(Ok("飞书机器人 skipped"@))
            } else if is_blank(robot.webhook_url@) && is_blank(robot.token@) {
                step == StepView::Done(Err("Webhook URL 或 Key/Token 未配置"@))
            } else {
                posts_to_feishu_robot(step, robot, text_of(robot.common, notice), secs)
            }
        }),
{
    law_text_is_posted_to_feishu_robot(
        config.feishu_robot,
        text_of(config.feishu_robot.common, notice),
        secs,
    );
}

/// Whether a notification is to be sent to the webhook.
pub open spec fn is_due_for_webhook(
    webhook: WebhookConfig,
    notice: Notice<'_>,
    force: bool,
) -> bool {
    match notice {
        Notice::Sms(_) => force || (webhook.enabled && webhook.forward_sms),
        Notice::Call(_) => force || (webhook.enabled && webhook.forward_calls),
        Notice::Ddns(_) => webhook.enabled && webhook.forward_ddns,
    }
}

/// What the webhook is sent: the template for the kind of the notification, filled with
/// escaped values.
pub open spec fn webhook_body(webhook: WebhookConfig, notice: Notice<'_>) -> Seq<char> {
    match notice {
        Notice::Sms(message) => sms_text(webhook.sms_template@, *message, true),
        Notice::Call(call) => call_text(webhook.call_template@, *call, true),
        Notice::Ddns(event) => ddns_text(webhook.ddns_template@, *event, true),
    }
}

/// Whether the configured headers name the type of the content, in any case of the letters.
pub open spec fn names_the_type(headers: Seq<(String, String)>) -> bool {
    exists|i: int|
        0 <= i < headers.len() && same_ignoring_ascii_case(
            (#[trigger] headers[i]).0@,
            "content-type"@,
        )
}

/// Whether a step posts a body to the webhook. The configured headers come first; JSON is named
/// as the type of the content unless they name one; and a secret that is not blank has a
/// signature added, the hash of the secret and the body in sixteen hexadecimal digits.
pub open spec fn posts_to_webhook(step: StepView, config: WebhookConfig, body: Seq<char>) -> bool {
    let configured = config.headers@.len() as int;
    let typed = if names_the_type(config.headers@) {
        configured
    } else {
        configured + 1
    };
    let secret = trimmed(config.secret@);
    let hash = DefaultHasher::spec_finish(
        Seq::<Seq<u8>>::empty() + hashed_writes(secret + body),
    );
    &&& step matches StepView::Send(request, pending)
    &&& request.method == Method::Post
    &&& request.url == trimmed(config.url@)
    &&& request.body == BodyView::Text(body)
    &&& request.headers.len() == (if secret.len() == 0 {
        typed
    } else {
        typed + 1
    })
    &&& forall|i: int|
        0 <= i < configured ==> (#[trigger] request.headers[i]) == (
            config.headers@[i].0@,
            config.headers@[i].1@,
        )
    &&& typed > configured ==> request.headers[configured] == (
        "Content-Type"@,
        "application/json"@,
    )
    &&& secret.len() > 0 ==> request.headers[typed] == (
        "X-Webhook-Signature"@,
        hex_text(hash as nat, 16),
    )
    &&& pending == (PendingView::Message {
        label: "Webhook"@,
        failure: "Failed to send webhook: "@,
    })
}

/// A body is posted to the webhook as it is.
pub proof fn law_body_is_posted_to_webhook(config: WebhookConfig, body: Seq<char>)
    ensures
        posts_to_webhook(webhook_step(config, body), config, body),
{
    let headers = config.headers@;
    let views = header_views(headers);
    assert(views.len() == headers.len());
    assert(names_the_type(headers) == has_content_type(views)) by {
        if names_the_type(headers) {
            let i = choose|i: int|
                0 <= i < headers.len() && same_ignoring_ascii_case(
                    (#[trigger] headers[i]).0@,
                    "content-type"@,
                );
            assert(names_content_type(views[i]));
        }
        if has_content_type(views) {
            let i = choose|i: int|
                0 <= i < views.len() && names_content_type(
                    #[trigger] views[i],
                );
            assert(same_ignoring_ascii_case(headers[i].0@, "content-type"@));
        }
    }
}

/// The webhook with an address is sent the notification in the template for its kind, with
/// escaped values, and nothing where it is not due.
pub proof fn law_webhook_is_sent_the_text(
    config: NotificationConfig,
    notice: Notice<'_>,
    force: bool,
    secs: u64,
    millis: u128,
)
    ensures
        ({
            let step = step_of(
                NotificationChannel::Webhook,
                config,
                notice,
                force,
                secs,
                millis,
            );
            if !is_due_for_webhook(config.webhook, notice, force) {
                step == StepView::Done(Ok("Webhook skipped"@))
            } else if is_blank(config.webhook.url@) {
                step == StepView::Done(Err("Webhook URL is not configured"@))
            } else {
                posts_to_webhook(step, config.webhook, webhook_body(config.webhook, notice))
            }
        }),
{
    law_body_is_posted_to_webhook(config.webhook, webhook_body(config.webhook, notice));
}

/// Under a template, what the webhook is sent for a dynamic DNS event is the template with each
/// placeholder replaced by its value, escaped for JSON.
pub proof fn law_webhook_is_sent_escaped_values(
    config: NotificationConfig,
    event: DdnsEvent,
    secs: u64,
    millis: u128,
)
    requires
        config.webhook.enabled,
        config.webhook.forward_ddns,
        !is_blank(config.webhook.url@),
        !is_blank(config.webhook.ddns_template@),
    ensures
        ({
            let step = step_of(
                NotificationChannel::Webhook,
                config,
                Notice::Ddns(&event),
                false,
                secs,
                millis,
            );
            let values = ddns_values(event, false);
            let escaped_values = ddns_values(event, true);
            &&& step is Send
            &&& step->Send_0.body == BodyView::Text(
                filled(config.webhook.ddns_template@, escaped_values),
            )
            &&& escaped_values.len() == values.len()
            &&& forall|i: int|
                0 <= i < values.len() ==> (#[trigger] escaped_values[i]) == (
                    values[i].0,
                    escaped(values[i].1),
                )
        }),
{
    law_ddns_values_are_filled_in_turn(config.webhook.ddns_template@, event, true);
    let values = ddns_values(event, false);
    let escaped_values = ddns_values(event, true);
    assert(escaped_values =~= values.map_values(|value: Filling| (value.0, escaped(value.1))));
}

/// Under a blank template, what the webhook is sent for a dynamic DNS event reads as JSON: an
/// object that says that it is a text, and holds the default text of the event. This takes an
/// event without control characters but line breaks and tabs.
pub proof fn law_webhook_is_sent_json_for_events(
    config: NotificationConfig,
    event: DdnsEvent,
    secs: u64,
    millis: u128,
)
    requires
        config.webhook.enabled,
        config.webhook.forward_ddns,
        !is_blank(config.webhook.url@),
        is_blank(config.webhook.ddns_template@),
        is_writable_event(event),
    ensures
        ({
            let step = step_of(
                NotificationChannel::Webhook,
                config,
                Notice::Ddns(&event),
                false,
                secs,
                millis,
            );
            let body = step->Send_0.body->Text_0;
            &&& step is Send
            &&& step->Send_0.body is Text
            &&& read_json(body) matches Some(json)
            &&& has_text(json, "msg_type"@, "text"@)
            &&& has_one_text(
                json,
                "content"@,
                "text"@,
                ddns_text(config.webhook.ddns_template@, event, false),
            )
            &&& forall|key: Seq<char>|
                json_field(json, key) is Some ==> key == "msg_type"@ || key == "content"@
        }),
{
    reveal_strlit("msg_type");
    reveal_strlit("content");
    assert("msg_type"@.len() == 8);
    assert("content"@.len() == 7);
    law_default_json_writes_the_text(config.webhook.ddns_template@, event);
}

/// A message channel with other templates for the kinds that a notification is not of.
pub open spec fn with_other_templates(
    common: MessageChannelConfig,
    notice: Notice<'_>,
    a: String,
    b: String,
) -> MessageChannelConfig {
    match notice {
        Notice::Sms(_) => MessageChannelConfig { call_template: a, ddns_template: b, ..common },
        Notice::Call(_) => MessageChannelConfig { sms_template: a, ddns_template: b, ..common },
        Notice::Ddns(_) => MessageChannelConfig { sms_template: a, call_template: b, ..common },
    }
}

/// The webhook with other templates for the kinds that a notification is not of.
pub open spec fn webhook_with_other_templates(
    webhook: WebhookConfig,
    notice: Notice<'_>,
    a: String,
    b: String,
) -> WebhookConfig {
    match notice {
        Notice::Sms(_) => WebhookConfig { call_template: a, ddns_template: b, ..webhook },
        Notice::Call(_) => WebhookConfig { sms_template: a, ddns_template: b, ..webhook },
        Notice::Ddns(_) => WebhookConfig { sms_template: a, call_template: b, ..webhook },
    }
}

/// A configuration with other templates for the kinds that a notification is not of.
pub open spec fn configured_otherwise(
    config: NotificationConfig,
    notice: Notice<'_>,
    a: String,
    b: String,
) -> NotificationConfig {
    NotificationConfig {
        webhook: webhook_with_other_templates(config.webhook, notice, a, b),
        bark: BarkConfig {
            common: with_other_templates(config.bark.common, notice, a, b),
            ..config.bark
        },
        pushplus: PushPlusConfig {
            common: with_other_templates(config.pushplus.common, notice, a, b),
            ..config.pushplus
        },
        wecom_app: WecomAppConfig {
            common: with_other_templates(config.wecom_app.common, notice, a, b),
            ..config.wecom_app
        },
        wecom_robot: WecomRobotConfig {
            common: with_other_templates(config.wecom_robot.common, notice, a, b),
            ..config.wecom_robot
        },
        dingtalk_robot: DingtalkRobotConfig {
            common: with_other_templates(config.dingtalk_robot.common, notice, a, b),
            ..config.dingtalk_robot
        },
        dingtalk_app: DingtalkAppConfig {
            common: with_other_templates(config.dingtalk_app.common, notice, a, b),
            ..config.dingtalk_app
        },
        feishu_robot: FeishuRobotConfig {
            common: with_other_templates(config.feishu_robot.common, notice, a, b),
            ..config.feishu_robot
        },
        telegram: TelegramConfig {
            common: with_other_templates(config.telegram.common, notice, a, b),
            ..config.telegram
        },
    }
}

proof fn lemma_other_templates_of_webhook(
    config: NotificationConfig,
    notice: Notice<'_>,
    force: bool,
    secs: u64,
    millis: u128,
    a: String,
    b: String,
)
    ensures
        ({
            let channel = NotificationChannel::Webhook;
            let other = configured_otherwise(config, notice, a, b);
            step_of(channel, other, notice, force, secs, millis) == step_of(
                channel,
                config,
                notice,
                force,
                secs,
                millis,
            )
        }),
{
}

proof fn lemma_other_templates_of_bark(
    config: NotificationConfig,
    notice: Notice<'_>,
    force: bool,
    secs: u64,
    millis: u128,
    a: String,
    b: String,
)
    ensures
        ({
            let channel = NotificationChannel::Bark;
            let other = configured_otherwise(config, notice, a, b);
            step_of(channel, other, notice, force, secs, millis) == step_of(
                channel,
                config,
                notice,
                force,
                secs,
                millis,
            )
        }),
{
}

proof fn lemma_other_templates_of_pushplus(
    config: NotificationConfig,
    notice: Notice<'_>,
    force: bool,
    secs: u64,
    millis: u128,
    a: String,
    b: String,
)
    ensures
        ({
            let channel = NotificationChannel::PushPlus;
            let other = configured_otherwise(config, notice, a, b);
            step_of(channel, other, notice, force, secs, millis) == step_of(
                channel,
                config,
                notice,
                force,
                secs,
                millis,
            )
        }),
{
}

proof fn lemma_other_templates_of_wecom_app(
    config: NotificationConfig,
    notice: Notice<'_>,
    force: bool,
    secs: u64,
    millis: u128,
    a: String,
    b: String,
)
    ensures
        ({
            let channel = NotificationChannel::WecomApp;
            let other = configured_otherwise(config, notice, a, b);
            step_of(channel, other, notice, force, secs, millis) == step_of(
                channel,
                config,
                notice,
                force,
                secs,
                millis,
            )
        }),
{
}

proof fn lemma_other_templates_of_wecom_robot(
    config: NotificationConfig,
    notice: Notice<'_>,
    force: bool,
    secs: u64,
    millis: u128,
    a: String,
    b: String,
)
    ensures
        ({
            let channel = NotificationChannel::WecomRobot;
            let other = configured_otherwise(config, notice, a, b);
            step_of(channel, other, notice, force, secs, millis) == step_of(
                channel,
                config,
                notice,
                force,
                secs,
                millis,
            )
        }),
{
}

proof fn lemma_other_templates_of_dingtalk_robot(
    config: NotificationConfig,
    notice: Notice<'_>,
    force: bool,
    secs: u64,
    millis: u128,
    a: String,
    b: String,
)
    ensures
        ({
            let channel = NotificationChannel::DingtalkRobot;
            let other = configured_otherwise(config, notice, a, b);
            step_of(channel, other, notice, force, secs, millis) == step_of(
                channel,
                config,
                notice,
                force,
                secs,
                millis,
            )
        }),
{
}

proof fn lemma_other_templates_of_dingtalk_app(
    config: NotificationConfig,
    notice: Notice<'_>,
    force: bool,
    secs: u64,
    millis: u128,
    a: String,
    b: String,
)
    ensures
        ({
            let channel = NotificationChannel::DingtalkApp;
            let other = configured_otherwise(config, notice, a, b);
            step_of(channel, other, notice, force, secs, millis) == step_of(
                channel,
                config,
                notice,
                force,
                secs,
                millis,
            )
        }),
{
}

proof fn lemma_other_templates_of_feishu_robot(
    config: NotificationConfig,
    notice: Notice<'_>,
    force: bool,
    secs: u64,
    millis: u128,
    a: String,
    b: String,
)
    ensures
        ({
            let channel = NotificationChannel::FeishuRobot;
            let other = configured_otherwise(config, notice, a, b);
            step_of(channel, other, notice, force, secs, millis) == step_of(
                channel,
                config,
                notice,
                force,
                secs,
                millis,
            )
        }),
{
}

proof fn lemma_other_templates_of_telegram(
    config: NotificationConfig,
    notice: Notice<'_>,
    force: bool,
    secs: u64,
    millis: u128,
    a: String,
    b: String,
)
    ensures
        ({
            let channel = NotificationChannel::Telegram;
            let other = configured_otherwise(config, notice, a, b);
            step_of(channel, other, notice, force, secs, millis) == step_of(
                channel,
                config,
                notice,
                force,
                secs,
                millis,
            )
        }),
{
}

/// What a channel is sent does not depend on the templates for the other kinds of notification.
pub proof fn law_templates_of_other_kinds_do_not_matter(
    channel: NotificationChannel,
    config: NotificationConfig,
    notice: Notice<'_>,
    force: bool,
    secs: u64,
    millis: u128,
    a: String,
    b: String,
)
    ensures
        step_of(channel, configured_otherwise(config, notice, a, b), notice, force, secs, millis)
            == step_of(channel, config, notice, force, secs, millis),
{
    match channel {
        NotificationChannel::Webhook => {
            lemma_other_templates_of_webhook(config, notice, force, secs, millis, a, b);
        },
        NotificationChannel::Bark => {
            lemma_other_templates_of_bark(config, notice, force, secs, millis, a, b);
        },
        NotificationChannel::PushPlus => {
            lemma_other_templates_of_pushplus(config, notice, force, secs, millis, a, b);
        },
        NotificationChannel::WecomApp => {
            lemma_other_templates_of_wecom_app(config, notice, force, secs, millis, a, b);
        },
        NotificationChannel::WecomRobot => {
            lemma_other_templates_of_wecom_robot(config, notice, force, secs, millis, a, b);
        },
        NotificationChannel::DingtalkRobot => {
            lemma_other_templates_of_dingtalk_robot(config, notice, force, secs, millis, a, b);
        },
        NotificationChannel::DingtalkApp => {
            lemma_other_templates_of_dingtalk_app(config, notice, force, secs, millis, a, b);
        },
        NotificationChannel::FeishuRobot => {
            lemma_other_templates_of_feishu_robot(config, notice, force, secs, millis, a, b);
        },
        NotificationChannel::Telegram => {
            lemma_other_templates_of_telegram(config, notice, force, secs, millis, a, b);
        },
    }
}

} // verus!
