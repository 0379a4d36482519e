//! Robots in WeCom groups.
use crate::config::{
    forwards_calls, forwards_ddns, forwards_sms, should_send_call, should_send_ddns,
    should_send_sms, WecomRobotConfig,
};
use crate::channels::robot::{robot_url, robot_webhook_url};
use crate::delivery::{json_step, post_json, refused, skip, skipped, Step, StepView};
use crate::json::{
    insert, new_object, no_entries, object_value, one_text, one_text_object, text_value, Json,
};
use crate::models::{CallRecord, DdnsEvent, SmsMessage};
use crate::templates::{
    call_text, ddns_text, render_call_template, render_ddns_template, render_sms_template, sms_text,
};
use vstd::prelude::*;

verus! {

/// The payload of a text.
pub open spec fn wecom_robot_payload(text: Seq<char>) -> Map<Seq<char>, Json> {
    no_entries().insert("msgtype"@, Json::Text("text"@)).insert("text"@, one_text("content"@, text))
}

/// The step that posts a text to the robot.
pub open spec fn wecom_robot_text_step(config: WecomRobotConfig, text: Seq<char>) -> StepView {
    match robot_url(
        config.webhook_url@,
        config.key@,
        "https://qyapi.weixin.qq.com/cgi-bin/webhook/send?key="@,
    ) {
        Ok(url) => json_step("企业微信群机器人"@, url, Json::Object(wecom_robot_payload(text))),
        Err(reason) => refused(reason),
    }
}

/// Posts a text to the robot.
pub fn send_wecom_robot_text(config: &WecomRobotConfig, text: &str) -> (step: Step)
    ensures
        step@ == wecom_robot_text_step(*config, text@),
{
    let url = match robot_webhook_url(
        config.webhook_url.as_str(),
        config.key.as_str(),
        "https://qyapi.weixin.qq.com/cgi-bin/webhook/send?key=",
    ) {
        Ok(url) => url,
        Err(reason) => return Step::Done(Err(reason)),
    };
    let mut payload = new_object();
    insert(&mut payload, "msgtype", text_value("text"));
    insert(&mut payload, "text", one_text_object("content", text));
    post_json("企业微信群机器人", url, object_value(payload))
}

/// What a text message needs on the robot of a WeCom group.
pub open spec fn wecom_robot_sms_step(
    config: WecomRobotConfig,
    message: SmsMessage,
    force: bool,
) -> StepView {
    if forwards_sms(config.common, force) {
        wecom_robot_text_step(config, sms_text(config.common.sms_template@, message, false))
    } else {
        skipped("企业微信群机器人 skipped"@)
    }
}

/// Sends a text message to the robot of a WeCom group.
pub fn send_wecom_robot_sms(
    config: &WecomRobotConfig,
    message: &SmsMessage,
    force: bool,
) -> (step: Step)
    ensures
        step@ == wecom_robot_sms_step(*config, *message, force),
{
    if !should_send_sms(&config.common, force) {
        return skip("企业微信群机器人 skipped");
    }
    let text = render_sms_template(config.common.sms_template.as_str(), message, false);
    send_wecom_robot_text(config, text.as_str())
}

/// What a call needs on the robot of a WeCom group.
pub open spec fn wecom_robot_call_step(
    config: WecomRobotConfig,
    call: CallRecord,
    force: bool,
) -> StepView {
    if forwards_calls(config.common, force) {
        wecom_robot_text_step(config, call_text(config.common.call_template@, call, false))
    } else {
        skipped("企业微信群机器人 skipped"@)
    }
}

/// Sends a call to the robot of a WeCom group.
pub fn send_wecom_robot_call(
    config: &WecomRobotConfig,
    call: &CallRecord,
    force: bool,
) -> (step: Step)
    ensures
        step@ == wecom_robot_call_step(*config, *call, force),
{
    if !should_send_call(&config.common, force) {
        return skip("企业微信群机器人 skipped");
    }
    let text = render_call_template(config.common.call_template.as_str(), call, false);
    send_wecom_robot_text(config, text.as_str())
}

/// What a dynamic DNS event needs on the robot of a WeCom group.
pub open spec fn wecom_robot_ddns_step(
    config: WecomRobotConfig,
    event: DdnsEvent,
) -> StepView {
    if forwards_ddns(config.common) {
        wecom_robot_text_step(config, ddns_text(config.common.ddns_template@, event, false))
    } else {
        skipped("企业微信群机器人 skipped"@)
    }
}

/// Sends a dynamic DNS event to the robot of a WeCom group.
pub fn send_wecom_robot_ddns(config: &WecomRobotConfig, event: &DdnsEvent) -> (step: Step)
    ensures
        step@ == wecom_robot_ddns_step(*config, *event),
{
    if !should_send_ddns(&config.common) {
        return skip("企业微信群机器人 skipped");
    }
    let text = render_ddns_template(config.common.ddns_template.as_str(), event, false);
    send_wecom_robot_text(config, text.as_str())
}

} // verus!
