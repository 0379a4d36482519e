//! Robots in Feishu groups.
use crate::config::{
    forwards_calls, forwards_ddns, forwards_sms, should_send_call, should_send_ddns,
    should_send_sms, FeishuRobotConfig,
};
use crate::channels::robot::{robot_url, robot_webhook_url};
use crate::clock::{current_timestamp_secs, epoch_secs, is_reading, Span};
use crate::delivery::{json_step, post_json, refused, skip, skipped, Step, StepView};
use crate::json::{
    entries_of, insert, new_object, no_entries, object_value, one_text, one_text_object, text_value,
    Json,
};
use crate::models::{CallRecord, DdnsEvent, SmsMessage};
use crate::signing::{feishu_signature, is_signable, sign_for_feishu};
use crate::templates::{
    call_text, ddns_text, render_call_template, render_ddns_template, render_sms_template, sms_text,
};
use crate::text::{is_blank, natural_text, natural_to_text, trim};
use serde_json::Value;
use vstd::prelude::*;

verus! {

/// The payload of a text.
pub open spec fn feishu_payload(text: Seq<char>) -> Map<Seq<char>, Json> {
    no_entries().insert("msg_type"@, Json::Text("text"@)).insert("content"@, one_text("text"@, text))
}

/// A payload with a timestamp and a signature.
pub open spec fn signed_payload(
    payload: Map<Seq<char>, Json>,
    timestamp: nat,
    signature: Seq<char>,
) -> Map<Seq<char>, Json> {
    payload.insert("timestamp"@, Json::Text(natural_text(timestamp))).insert(
        "sign"@,
        Json::Text(signature),
    )
}

/// Adds a timestamp and a signature to a payload.
pub fn sign_payload(payload: &mut serde_json::Map<String, Value>, timestamp: u64, signature: &str)
    ensures
        entries_of(*final(payload)) == signed_payload(
            entries_of(*old(payload)),
            timestamp as nat,
            signature@,
        ),
{
    insert(payload, "timestamp", text_value(natural_to_text(timestamp as u128).as_str()));
    insert(payload, "sign", text_value(signature));
}

/// The step that posts a text to the robot at a time.
pub open spec fn feishu_robot_text_step(
    config: FeishuRobotConfig,
    text: Seq<char>,
    timestamp: u64,
) -> StepView {
    match robot_url(
        config.webhook_url@,
        config.token@,
        "https://open.feishu.cn/open-apis/bot/v2/hook/"@,
    ) {
        Ok(url) => json_step(
            "飞书机器人"@,
            url,
            Json::Object(
                if is_blank(config.secret@) {
                    feishu_payload(text)
                } else {
                    signed_payload(
                        feishu_payload(text),
                        timestamp as nat,
                        feishu_signature(timestamp as nat, config.secret@),
                    )
                },
            ),
        ),
        Err(reason) => refused(reason),
    }
}

/// Posts a text to the robot at a time in seconds.
pub fn send_feishu_robot_text_at(config: &FeishuRobotConfig, text: &str, timestamp: u64) -> (step:
    Step)
    requires
        is_signable(config.secret@),
    ensures
        step@ == feishu_robot_text_step(*config, text@, timestamp),
{
    let url = match robot_webhook_url(
        config.webhook_url.as_str(),
        config.token.as_str(),
        "https://open.feishu.cn/open-apis/bot/v2/hook/",
    ) {
        Ok(url) => url,
        Err(reason) => return Step::Done(Err(reason)),
    };
    let mut payload = new_object();
    insert(&mut payload, "msg_type", text_value("text"));
    insert(&mut payload, "content", one_text_object("text", text));
    if !trim(config.secret.as_str()).is_empty() {
        let signature = sign_for_feishu(timestamp, config.secret.as_str());
        sign_payload(&mut payload, timestamp, signature.as_str());
    }
    post_json("飞书机器人", url, object_value(payload))
}

/// Posts a text to the robot.
pub fn send_feishu_robot_text(config: &FeishuRobotConfig, text: &str) -> (step: Step)
    requires
        is_signable(config.secret@),
    ensures
        exists|passed: Option<Span>| #[trigger]
            is_reading(passed) && feishu_robot_text_step(
                *config,
                text@,
                epoch_secs(passed),
            ) == step@,
{
    let timestamp = current_timestamp_secs();
    send_feishu_robot_text_at(config, text, timestamp)
}

/// What a text message needs on the robot of a Feishu group.
pub open spec fn feishu_robot_sms_step(
    config: FeishuRobotConfig,
    message: SmsMessage,
    force: bool,
    timestamp: u64,
) -> StepView {
    if forwards_sms(config.common, force) {
        feishu_robot_text_step(config, sms_text(config.common.sms_template@, message, false), timestamp)
    } else {
        skipped("飞书机器人 skipped"@)
    }
}

/// Sends a text message to the robot of a Feishu group.
pub fn send_feishu_robot_sms(
    config: &FeishuRobotConfig,
    message: &SmsMessage,
    force: bool,
) -> (step: Step)
    requires
        is_signable(config.secret@),
    ensures
        exists|passed: Option<Span>| #[trigger]
            is_reading(passed) && feishu_robot_sms_step(
                *config,
                *message,
                force,
                epoch_secs(passed),
            ) == step@,
{
    if !should_send_sms(&config.common, force) {
        let step = skip("飞书机器人 skipped");
        let ghost passed: Option<Span> = None;
        assert(is_reading(passed));
        return step;
    }
    let text = render_sms_template(config.common.sms_template.as_str(), message, false);
    send_feishu_robot_text(config, text.as_str())
}

/// What a call needs on the robot of a Feishu group.
pub open spec fn feishu_robot_call_step(
    config: FeishuRobotConfig,
    call: CallRecord,
    force: bool,
    timestamp: u64,
) -> StepView {
    if forwards_calls(config.common, force) {
        feishu_robot_text_step(config, call_text(config.common.call_template@, call, false), timestamp)
    } else {
        skipped("飞书机器人 skipped"@)
    }
}

/// Sends a call to the robot of a Feishu group.
pub fn send_feishu_robot_call(
    config: &FeishuRobotConfig,
    call: &CallRecord,
    force: bool,
) -> (step: Step)
    requires
        is_signable(config.secret@),
    ensures
        exists|passed: Option<Span>| #[trigger]
            is_reading(passed) && feishu_robot_call_step(
                *config,
                *call,
                force,
                epoch_secs(passed),
            ) == step@,
{
    if !should_send_call(&config.common, force) {
        let step = skip("飞书机器人 skipped");
        let ghost passed: Option<Span> = None;
        assert(is_reading(passed));
        return step;
    }
    let text = render_call_template(config.common.call_template.as_str(), call, false);
    send_feishu_robot_text(config, text.as_str())
}

/// What a dynamic DNS event needs on the robot of a Feishu group.
pub open spec fn feishu_robot_ddns_step(
    config: FeishuRobotConfig,
    event: DdnsEvent,
    timestamp: u64,
) -> StepView {
    if forwards_ddns(config.common) {
        feishu_robot_text_step(config, ddns_text(config.common.ddns_template@, event, false), timestamp)
    } else {
        skipped("飞书机器人 skipped"@)
    }
}

/// Sends a dynamic DNS event to the robot of a Feishu group.
pub fn send_feishu_robot_ddns(config: &FeishuRobotConfig, event: &DdnsEvent) -> (step: Step)
    requires
        is_signable(config.secret@),
    ensures
        exists|passed: Option<Span>| #[trigger]
            is_reading(passed) && feishu_robot_ddns_step(
                *config,
                *event,
                epoch_secs(passed),
            ) == step@,
{
    if !should_send_ddns(&config.common) {
        let step = skip("飞书机器人 skipped");
        let ghost passed: Option<Span> = None;
        assert(is_reading(passed));
        return step;
    }
    let text = render_ddns_template(config.common.ddns_template.as_str(), event, false);
    send_feishu_robot_text(config, text.as_str())
}

} // verus!
