//! Custom robots in DingTalk groups.
use crate::config::{
    forwards_calls, forwards_ddns, forwards_sms, should_send_call, should_send_ddns,
    should_send_sms, DingtalkRobotConfig,
};
use crate::channels::robot::{robot_url, robot_webhook_url};
use crate::clock::{current_timestamp_millis, epoch_millis, is_reading, Span};
use crate::delivery::{json_step, post_json, refused, skip, skipped, Step, StepView};
use crate::encoding::{encode_query_value, percent_encoded};
use crate::json::{
    bool_value, insert, new_object, no_entries, object_value, one_text, one_text_object, text_items,
    text_value, texts_value, Json,
};
use crate::models::{CallRecord, DdnsEvent, SmsMessage};
use crate::signing::{dingtalk_signature, is_signable, sign_for_dingtalk};
use crate::templates::{
    call_text, ddns_text, render_call_template, render_ddns_template, render_sms_template, sms_text,
};
use crate::text::{contains_char, csv_items, is_blank, natural_text, natural_to_text, split_csv, trim};
use vstd::prelude::*;

verus! {

/// An address with a timestamp and a signature in its query.
pub open spec fn signed_url(url: Seq<char>, timestamp: nat, signature: Seq<char>) -> Seq<char> {
    url + (if url.contains('?') {
        "&"@
    } else {
        "?"@
    }) + "timestamp="@ + natural_text(timestamp) + "&sign="@ + percent_encoded(signature)
}

/// Adds a timestamp and a signature to the query of an address.
pub fn sign_url(url: String, timestamp: u128, signature: &str) -> (result: String)
    ensures
        result@ == signed_url(url@, timestamp as nat, signature@),
{
    let separator = if contains_char(url.as_str(), '?') {
        "&"
    } else {
        "?"
    };
    let mut url = url;
    url.append(separator);
    url.append("timestamp=");
    url.append(natural_to_text(timestamp).as_str());
    url.append("&sign=");
    url.append(encode_query_value(signature).as_str());
    url
}

/// The payload of a text.
pub open spec fn dingtalk_robot_payload(config: DingtalkRobotConfig, text: Seq<char>) -> Map<
    Seq<char>,
    Json,
> {
    let at = no_entries().insert(
        "atMobiles"@,
        Json::Array(text_items(csv_items(config.at_mobiles@))),
    ).insert("isAtAll"@, Json::Bool(config.at_all));
    no_entries().insert("msgtype"@, Json::Text("text"@)).insert(
        "text"@,
        one_text("content"@, text),
    ).insert("at"@, Json::Object(at))
}

/// The step that posts a text to the robot at a time.
pub open spec fn dingtalk_robot_text_step(
    config: DingtalkRobotConfig,
    text: Seq<char>,
    timestamp: u128,
) -> StepView {
    match robot_url(
        config.webhook_url@,
        config.access_token@,
        "https://oapi.dingtalk.com/robot/send?access_token="@,
    ) {
        Ok(url) => json_step(
            "钉钉群自定义机器人"@,
            if is_blank(config.secret@) {
                url
            } else {
                signed_url(
                    url,
                    timestamp as nat,
                    dingtalk_signature(timestamp as nat, config.secret@),
                )
            },
            Json::Object(dingtalk_robot_payload(config, text)),
        ),
        Err(reason) => refused(reason),
    }
}

/// Posts a text to the robot at a time in milliseconds.
pub fn send_dingtalk_robot_text_at(
    config: &DingtalkRobotConfig,
    text: &str,
    timestamp: u128,
) -> (step: Step)
    requires
        is_signable(config.secret@),
    ensures
        step@ == dingtalk_robot_text_step(*config, text@, timestamp),
{
    let mut url = match robot_webhook_url(
        config.webhook_url.as_str(),
        config.access_token.as_str(),
        "https://oapi.dingtalk.com/robot/send?access_token=",
    ) {
        Ok(url) => url,
        Err(reason) => return Step::Done(Err(reason)),
    };
    if !trim(config.secret.as_str()).is_empty() {
        let signature = sign_for_dingtalk(timestamp, config.secret.as_str());
        url = sign_url(url, timestamp, signature.as_str());
    }
    let mut at = new_object();
    insert(&mut at, "atMobiles", texts_value(split_csv(config.at_mobiles.as_str())));
    insert(&mut at, "isAtAll", bool_value(config.at_all));
    let mut payload = new_object();
    insert(&mut payload, "msgtype", text_value("text"));
    insert(&mut payload, "text", one_text_object("content", text));
    insert(&mut payload, "at", object_value(at));
    post_json("钉钉群自定义机器人", url, object_value(payload))
}

/// Posts a text to the robot.
pub fn send_dingtalk_robot_text(config: &DingtalkRobotConfig, text: &str) -> (step: Step)
    requires
        is_signable(config.secret@),
    ensures
        exists|passed: Option<Span>| #[trigger]
            is_reading(passed) && dingtalk_robot_text_step(
                *config,
                text@,
                epoch_millis(passed) as u128,
            ) == step@,
{
    let timestamp = current_timestamp_millis();
    send_dingtalk_robot_text_at(config, text, timestamp)
}

/// What a text message needs on the robot of a DingTalk group.
pub open spec fn dingtalk_robot_sms_step(
    config: DingtalkRobotConfig,
    message: SmsMessage,
    force: bool,
    timestamp: u128,
) -> StepView {
    if forwards_sms(config.common, force) {
        dingtalk_robot_text_step(
            config,
            sms_text(config.common.sms_template@, message, false),
            timestamp,
        )
    } else {
        skipped("钉钉群自定义机器人 skipped"@)
    }
}

/// Sends a text message to the robot of a DingTalk group.
pub fn send_dingtalk_robot_sms(
    config: &DingtalkRobotConfig,
    message: &SmsMessage,
    force: bool,
) -> (step: Step)
    requires
        is_signable(config.secret@),
    ensures
        exists|passed: Option<Span>| #[trigger]
            is_reading(passed) && dingtalk_robot_sms_step(
                *config,
                *message,
                force,
                epoch_millis(passed) as u128,
            ) == step@,
{
    if !should_send_sms(&config.common, force) {
        let step = skip("钉钉群自定义机器人 skipped");
        let ghost passed: Option<Span> = None;
        assert(is_reading(passed));
        return step;
    }
    let text = render_sms_template(config.common.sms_template.as_str(), message, false);
    send_dingtalk_robot_text(config, text.as_str())
}

/// What a call needs on the robot of a DingTalk group.
pub open spec fn dingtalk_robot_call_step(
    config: DingtalkRobotConfig,
    call: CallRecord,
    force: bool,
    timestamp: u128,
) -> StepView {
    if forwards_calls(config.common, force) {
        dingtalk_robot_text_step(
            config,
            call_text(config.common.call_template@, call, false),
            timestamp,
        )
    } else {
        skipped("钉钉群自定义机器人 skipped"@)
    }
}

/// Sends a call to the robot of a DingTalk group.
pub fn send_dingtalk_robot_call(
    config: &DingtalkRobotConfig,
    call: &CallRecord,
    force: bool,
) -> (step: Step)
    requires
        is_signable(config.secret@),
    ensures
        exists|passed: Option<Span>| #[trigger]
            is_reading(passed) && dingtalk_robot_call_step(
                *config,
                *call,
                force,
                epoch_millis(passed) as u128,
            ) == step@,
{
    if !should_send_call(&config.common, force) {
        let step = skip("钉钉群自定义机器人 skipped");
        let ghost passed: Option<Span> = None;
        assert(is_reading(passed));
        return step;
    }
    let text = render_call_template(config.common.call_template.as_str(), call, false);
    send_dingtalk_robot_text(config, text.as_str())
}

/// What a dynamic DNS event needs on the robot of a DingTalk group.
pub open spec fn dingtalk_robot_ddns_step(
    config: DingtalkRobotConfig,
    event: DdnsEvent,
    timestamp: u128,
) -> StepView {
    if forwards_ddns(config.common) {
        dingtalk_robot_text_step(
            config,
            ddns_text(config.common.ddns_template@, event, false),
            timestamp,
        )
    } else {
        skipped("钉钉群自定义机器人 skipped"@)
    }
}

/// Sends a dynamic DNS event to the robot of a DingTalk group.
pub fn send_dingtalk_robot_ddns(config: &DingtalkRobotConfig, event: &DdnsEvent) -> (step: Step)
    requires
        is_signable(config.secret@),
    ensures
        exists|passed: Option<Span>| #[trigger]
            is_reading(passed) && dingtalk_robot_ddns_step(
                *config,
                *event,
                epoch_millis(passed) as u128,
            ) == step@,
{
    if !should_send_ddns(&config.common) {
        let step = skip("钉钉群自定义机器人 skipped");
        let ghost passed: Option<Span> = None;
        assert(is_reading(passed));
        return step;
    }
    let text = render_ddns_template(config.common.ddns_template.as_str(), event, false);
    send_dingtalk_robot_text(config, text.as_str())
}

} // verus!
