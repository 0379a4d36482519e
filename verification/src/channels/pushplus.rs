//! The PushPlus service.
use crate::config::{
    forwards_calls, forwards_ddns, forwards_sms, should_send_call, should_send_ddns,
    should_send_sms, PushPlusConfig,
};
use crate::delivery::{
    json_step, post_json, refuse, refused, skip, skipped, Step, StepView,
};
use crate::json::{
    insert, insert_non_empty, new_object, no_entries, object_value, text_value, with_non_empty,
    Json,
};
use crate::models::{CallRecord, DdnsEvent, SmsMessage};
use crate::templates::{
    call_text, ddns_text, render_call_template, render_ddns_template, render_sms_template, sms_text,
};
use crate::text::{is_blank, trim, trimmed};
use vstd::prelude::*;

verus! {

/// The payload of a message.
pub open spec fn pushplus_payload(
    config: PushPlusConfig,
    title: Seq<char>,
    content: Seq<char>,
) -> Map<Seq<char>, Json> {
    let payload = no_entries().insert("token"@, Json::Text(trimmed(config.token@))).insert(
        "title"@,
        Json::Text(title),
    ).insert("content"@, Json::Text(content));
    let payload = with_non_empty(payload, "topic"@, config.topic@);
    let payload = with_non_empty(payload, "template"@, config.template@);
    let payload = with_non_empty(payload, "channel"@, config.channel@);
    let payload = with_non_empty(payload, "option"@, config.option@);
    with_non_empty(payload, "callbackUrl"@, config.callback_url@)
}

/// The step that posts a message to PushPlus. It takes a token.
pub open spec fn pushplus_message_step(
    config: PushPlusConfig,
    title: Seq<char>,
    content: Seq<char>,
) -> StepView {
    if is_blank(config.token@) {
        refused("PushPlus token is not configured"@)
    } else {
        json_step(
            "PushPlus"@,
            "https://www.pushplus.plus/send"@,
            Json::Object(pushplus_payload(config, title, content)),
        )
    }
}

/// Posts a message to PushPlus.
pub fn send_pushplus_message(config: &PushPlusConfig, title: &str, content: &str) -> (step: Step)
    ensures
        step@ == pushplus_message_step(*config, title@, content@),
{
    let token = trim(config.token.as_str());
    if token.is_empty() {
        return refuse("PushPlus token is not configured");
    }
    let mut payload = new_object();
    insert(&mut payload, "token", text_value(token));
    insert(&mut payload, "title", text_value(title));
    insert(&mut payload, "content", text_value(content));
    insert_non_empty(&mut payload, "topic", config.topic.as_str());
    insert_non_empty(&mut payload, "template", config.template.as_str());
    insert_non_empty(&mut payload, "channel", config.channel.as_str());
    insert_non_empty(&mut payload, "option", config.option.as_str());
    insert_non_empty(&mut payload, "callbackUrl", config.callback_url.as_str());
    post_json("PushPlus", "https://www.pushplus.plus/send".to_owned(), object_value(payload))
}

/// What a text message needs on PushPlus.
pub open spec fn pushplus_sms_step(
    config: PushPlusConfig,
    message: SmsMessage,
    force: bool,
) -> StepView {
    if !forwards_sms(config.common, force) {
        skipped("PushPlus skipped"@)
    } else {
        pushplus_message_step(
            config,
            sms_text(config.title_template@, message, false),
            sms_text(config.common.sms_template@, message, false),
        )
    }
}

/// Sends a text message to PushPlus.
pub fn send_pushplus_sms(config: &PushPlusConfig, message: &SmsMessage, force: bool) -> (step: Step)
    ensures
        step@ == pushplus_sms_step(*config, *message, force),
{
    if !should_send_sms(&config.common, force) {
        return skip("PushPlus skipped");
    }
    let title = render_sms_template(config.title_template.as_str(), message, false);
    let content = render_sms_template(config.common.sms_template.as_str(), message, false);
    send_pushplus_message(config, title.as_str(), content.as_str())
}

/// What a call needs on PushPlus.
pub open spec fn pushplus_call_step(
    config: PushPlusConfig,
    call: CallRecord,
    force: bool,
) -> StepView {
    if !forwards_calls(config.common, force) {
        skipped("PushPlus skipped"@)
    } else {
        pushplus_message_step(
            config,
            "SimAdmin 来电通知"@,
            call_text(config.common.call_template@, call, false),
        )
    }
}

/// Sends a call to PushPlus.
pub fn send_pushplus_call(config: &PushPlusConfig, call: &CallRecord, force: bool) -> (step: Step)
    ensures
        step@ == pushplus_call_step(*config, *call, force),
{
    if !should_send_call(&config.common, force) {
        return skip("PushPlus skipped");
    }
    let content = render_call_template(config.common.call_template.as_str(), call, false);
    send_pushplus_message(config, "SimAdmin 来电通知", content.as_str())
}

/// What a dynamic DNS event needs on PushPlus.
pub open spec fn pushplus_ddns_step(config: PushPlusConfig, event: DdnsEvent) -> StepView {
    if !forwards_ddns(config.common) {
        skipped("PushPlus skipped"@)
    } else {
        pushplus_message_step(
            config,
            "SimAdmin DDNS 通知"@,
            ddns_text(config.common.ddns_template@, event, false),
        )
    }
}

/// Sends a dynamic DNS event to PushPlus.
pub fn send_pushplus_ddns(config: &PushPlusConfig, event: &DdnsEvent) -> (step: Step)
    ensures
        step@ == pushplus_ddns_step(*config, *event),
{
    if !should_send_ddns(&config.common) {
        return skip("PushPlus skipped");
    }
    let content = render_ddns_template(config.common.ddns_template.as_str(), event, false);
    send_pushplus_message(config, "SimAdmin DDNS 通知", content.as_str())
}

} // verus!
