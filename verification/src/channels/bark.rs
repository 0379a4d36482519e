//! The Bark app.
use crate::config::{
    forwards_calls, forwards_ddns, forwards_sms, should_send_call, should_send_ddns,
    should_send_sms, BarkConfig,
};
use crate::delivery::{
    json_step, post_json, refuse, refused, skip, skipped, Step, StepView,
};
use crate::encoding::{encode_path_segment, percent_encoded};
use crate::json::{
    insert, insert_non_empty, int_value, new_object, no_entries, object_value, text_value,
    with_non_empty, Json,
};
use crate::models::{CallRecord, DdnsEvent, SmsMessage};
use crate::templates::{
    call_text, ddns_text, render_call_template, render_ddns_template, render_sms_template, sms_text,
};
use crate::text::{is_blank, trim, trim_end_matches, trimmed, without_trailing};
use vstd::prelude::*;

verus! {

/// The address of a device: the server, without slashes at its end, and the key.
pub open spec fn bark_url(config: BarkConfig) -> Seq<char> {
    without_trailing(trimmed(config.server_url@), '/') + "/"@ + percent_encoded(
        trimmed(config.device_key@),
    )
}

/// What is copied: the configured text, or the body where there is none.
pub open spec fn bark_copy(config: BarkConfig, body: Seq<char>) -> Seq<char> {
    if is_blank(config.copy@) {
        body
    } else {
        trimmed(config.copy@)
    }
}

/// The payload of a message.
pub open spec fn bark_payload(config: BarkConfig, title: Seq<char>, body: Seq<char>) -> Map<
    Seq<char>,
    Json,
> {
    let payload = no_entries().insert("title"@, Json::Text(title)).insert(
        "body"@,
        Json::Text(body),
    );
    let payload = with_non_empty(payload, "group"@, config.group@);
    let payload = with_non_empty(payload, "sound"@, config.sound@);
    let payload = with_non_empty(payload, "level"@, config.level@);
    let payload = with_non_empty(payload, "icon"@, config.icon@);
    let payload = with_non_empty(payload, "url"@, config.click_url@);
    let payload = if config.auto_copy {
        payload.insert("automaticallyCopy"@, Json::Int(1)).insert(
            "copy"@,
            Json::Text(bark_copy(config, body)),
        )
    } else {
        payload
    };
    payload.insert(
        "isArchive"@,
        Json::Int(
            if config.save_history {
                1
            } else {
                0
            },
        ),
    )
}

/// The step that posts a message to Bark.
pub open spec fn bark_message_step(
    config: BarkConfig,
    title: Seq<char>,
    body: Seq<char>,
) -> StepView {
    json_step("Bark"@, bark_url(config), Json::Object(bark_payload(config, title, body)))
}

/// Posts a message to Bark.
pub fn send_bark_message(config: &BarkConfig, title: &str, body: &str) -> (step: Step)
    ensures
        step@ == bark_message_step(*config, title@, body@),
{
    let mut url = trim_end_matches(trim(config.server_url.as_str()), '/').to_owned();
    url.append("/");
    url.append(encode_path_segment(trim(config.device_key.as_str())).as_str());
    let mut payload = new_object();
    insert(&mut payload, "title", text_value(title));
    insert(&mut payload, "body", text_value(body));
    insert_non_empty(&mut payload, "group", config.group.as_str());
    insert_non_empty(&mut payload, "sound", config.sound.as_str());
    insert_non_empty(&mut payload, "level", config.level.as_str());
    insert_non_empty(&mut payload, "icon", config.icon.as_str());
    insert_non_empty(&mut payload, "url", config.click_url.as_str());
    if config.auto_copy {
        insert(&mut payload, "automaticallyCopy", int_value(1));
        let copy = trim(config.copy.as_str());
        let copy = if copy.is_empty() {
            body
        } else {
            copy
        };
        insert(&mut payload, "copy", text_value(copy));
    }
    let archive: i64 = if config.save_history { 1 } else { 0 };
    insert(&mut payload, "isArchive", int_value(archive));
    post_json("Bark", url, object_value(payload))
}

/// What a text message needs on Bark.
pub open spec fn bark_sms_step(config: BarkConfig, message: SmsMessage, force: bool) -> StepView {
    if !forwards_sms(config.common, force) {
        skipped("Bark skipped"@)
    } else if is_blank(config.device_key@) {
        refused("Bark device key is not configured"@)
    } else {
        bark_message_step(
            config,
            sms_text(config.title_template@, message, false),
            sms_text(config.common.sms_template@, message, false),
        )
    }
}

/// Sends a text message to Bark.
pub fn send_bark_sms(config: &BarkConfig, message: &SmsMessage, force: bool) -> (step: Step)
    ensures
        step@ == bark_sms_step(*config, *message, force),
{
    if !should_send_sms(&config.common, force) {
        return skip("Bark skipped");
    }
    if trim(config.device_key.as_str()).is_empty() {
        return refuse("Bark device key is not configured");
    }
    let title = render_sms_template(config.title_template.as_str(), message, false);
    let body = render_sms_template(config.common.sms_template.as_str(), message, false);
    send_bark_message(config, title.as_str(), body.as_str())
}

/// What a call needs on Bark.
pub open spec fn bark_call_step(config: BarkConfig, call: CallRecord, force: bool) -> StepView {
    if !forwards_calls(config.common, force) {
        skipped("Bark skipped"@)
    } else if is_blank(config.device_key@) {
        refused("Bark device key is not configured"@)
    } else {
        bark_message_step(
            config,
            "SimAdmin 来电通知"@,
            call_text(config.common.call_template@, call, false),
        )
    }
}

/// Sends a call to Bark.
pub fn send_bark_call(config: &BarkConfig, call: &CallRecord, force: bool) -> (step: Step)
    ensures
        step@ == bark_call_step(*config, *call, force),
{
    if !should_send_call(&config.common, force) {
        return skip("Bark skipped");
    }
    if trim(config.device_key.as_str()).is_empty() {
        return refuse("Bark device key is not configured");
    }
    let body = render_call_template(config.common.call_template.as_str(), call, false);
    send_bark_message(config, "SimAdmin 来电通知", body.as_str())
}

/// What a dynamic DNS event needs on Bark.
pub open spec fn bark_ddns_step(config: BarkConfig, event: DdnsEvent) -> StepView {
    if !forwards_ddns(config.common) {
        skipped("Bark skipped"@)
    } else if is_blank(config.device_key@) {
        refused("Bark device key is not configured"@)
    } else {
        bark_message_step(
            config,
            "SimAdmin DDNS 通知"@,
            ddns_text(config.common.ddns_template@, event, false),
        )
    }
}

/// Sends a dynamic DNS event to Bark.
pub fn send_bark_ddns(config: &BarkConfig, event: &DdnsEvent) -> (step: Step)
    ensures
        step@ == bark_ddns_step(*config, *event),
{
    if !should_send_ddns(&config.common) {
        return skip("Bark skipped");
    }
    if trim(config.device_key.as_str()).is_empty() {
        return refuse("Bark device key is not configured");
    }
    let body = render_ddns_template(config.common.ddns_template.as_str(), event, false);
    send_bark_message(config, "SimAdmin DDNS 通知", body.as_str())
}

} // verus!
