//! Telegram bots.
use crate::config::{
    forwards_calls, forwards_ddns, forwards_sms, should_send_call, should_send_ddns,
    should_send_sms, TelegramConfig,
};
use crate::delivery::{
    json_step, post_json, refuse, refused, skip, skipped, Step, StepView,
};
use crate::json::{
    bool_value, insert, insert_non_empty, new_object, no_entries, object_value, text_value,
    with_non_empty, Json,
};
use crate::models::{CallRecord, DdnsEvent, SmsMessage};
use crate::templates::{
    call_text, ddns_text, render_call_template, render_ddns_template, render_sms_template, sms_text,
};
use crate::text::{is_blank, trim, trimmed};
use vstd::prelude::*;

verus! {

/// The address of a bot.
pub open spec fn telegram_url(config: TelegramConfig) -> Seq<char> {
    "https://api.telegram.org/bot"@ + trimmed(config.bot_token@) + "/sendMessage"@
}

/// The payload of a text.
pub open spec fn telegram_payload(config: TelegramConfig, text: Seq<char>) -> Map<Seq<char>, Json> {
    with_non_empty(
        no_entries().insert("chat_id"@, Json::Text(trimmed(config.chat_id@))).insert(
            "text"@,
            Json::Text(text),
        ).insert("disable_web_page_preview"@, Json::Bool(config.disable_web_page_preview)),
        "parse_mode"@,
        config.parse_mode@,
    )
}

/// The step that posts a text to the bot. It takes a token and a chat.
pub open spec fn telegram_text_step(config: TelegramConfig, text: Seq<char>) -> StepView {
    if is_blank(config.bot_token@) || is_blank(config.chat_id@) {
        refused("Telegram Bot Token 或 Chat ID 未配置"@)
    } else {
        json_step("Telegram"@, telegram_url(config), Json::Object(telegram_payload(config, text)))
    }
}

/// Posts a text to the bot.
pub fn send_telegram_text(config: &TelegramConfig, text: &str) -> (step: Step)
    ensures
        step@ == telegram_text_step(*config, text@),
{
    let bot_token = trim(config.bot_token.as_str());
    let chat_id = trim(config.chat_id.as_str());
    if bot_token.is_empty() || chat_id.is_empty() {
        return refuse("Telegram Bot Token 或 Chat ID 未配置");
    }
    let mut url = "https://api.telegram.org/bot".to_owned();
    url.append(bot_token);
    url.append("/sendMessage");
    let mut payload = new_object();
    insert(&mut payload, "chat_id", text_value(chat_id));
    insert(&mut payload, "text", text_value(text));
    insert(&mut payload, "disable_web_page_preview", bool_value(config.disable_web_page_preview));
    insert_non_empty(&mut payload, "parse_mode", config.parse_mode.as_str());
    post_json("Telegram", url, object_value(payload))
}

/// What a text message needs on a Telegram bot.
pub open spec fn telegram_sms_step(
    config: TelegramConfig,
    message: SmsMessage,
    force: bool,
) -> StepView {
    if forwards_sms(config.common, force) {
        telegram_text_step(config, sms_text(config.common.sms_template@, message, false))
    } else {
        skipped("Telegram skipped"@)
    }
}

/// Sends a text message to a Telegram bot.
pub fn send_telegram_sms(config: &TelegramConfig, message: &SmsMessage, force: bool) -> (step: Step)
    ensures
        step@ == telegram_sms_step(*config, *message, force),
{
    if !should_send_sms(&config.common, force) {
        return skip("Telegram skipped");
    }
    let text = render_sms_template(config.common.sms_template.as_str(), message, false);
    send_telegram_text(config, text.as_str())
}

/// What a call needs on a Telegram bot.
pub open spec fn telegram_call_step(
    config: TelegramConfig,
    call: CallRecord,
    force: bool,
) -> StepView {
    if forwards_calls(config.common, force) {
        telegram_text_step(config, call_text(config.common.call_template@, call, false))
    } else {
        skipped("Telegram skipped"@)
    }
}

/// Sends a call to a Telegram bot.
pub fn send_telegram_call(config: &TelegramConfig, call: &CallRecord, force: bool) -> (step: Step)
    ensures
        step@ == telegram_call_step(*config, *call, force),
{
    if !should_send_call(&config.common, force) {
        return skip("Telegram skipped");
    }
    let text = render_call_template(config.common.call_template.as_str(), call, false);
    send_telegram_text(config, text.as_str())
}

/// What a dynamic DNS event needs on a Telegram bot.
pub open spec fn telegram_ddns_step(
    config: TelegramConfig,
    event: DdnsEvent,
) -> StepView {
    if forwards_ddns(config.common) {
        telegram_text_step(config, ddns_text(config.common.ddns_template@, event, false))
    } else {
        skipped("Telegram skipped"@)
    }
}

/// Sends a dynamic DNS event to a Telegram bot.
pub fn send_telegram_ddns(config: &TelegramConfig, event: &DdnsEvent) -> (step: Step)
    ensures
        step@ == telegram_ddns_step(*config, *event),
{
    if !should_send_ddns(&config.common) {
        return skip("Telegram skipped");
    }
    let text = render_ddns_template(config.common.ddns_template.as_str(), event, false);
    send_telegram_text(config, text.as_str())
}

} // verus!
