//! Webhooks of the user's own.
use crate::config::WebhookConfig;
use crate::delivery::{
    header_views, refuse, refused, skip, skipped, Body, BodyView, Method, Pending, PendingView,
    Request, RequestView, Step, StepView,
};
use crate::encoding::{compute_legacy_signature, text_hash};
use crate::models::{CallRecord, DdnsEvent, SmsMessage};
use crate::templates::{
    call_text, ddns_text, render_call_template, render_ddns_template, render_sms_template, sms_text,
};
use crate::text::{
    eq_ignore_ascii_case, hex_text, is_blank, same_ignoring_ascii_case, trim, trimmed,
};
use vstd::prelude::*;

verus! {

/// Whether a header names the type of the content.
pub open spec fn names_content_type(header: (Seq<char>, Seq<char>)) -> bool {
    same_ignoring_ascii_case(header.0, "content-type"@)
}

/// Whether one of the headers names the type of the content.
pub open spec fn has_content_type(headers: Seq<(Seq<char>, Seq<char>)>) -> bool {
    exists|i: int| 0 <= i < headers.len() && names_content_type(#[trigger] headers[i])
}

/// The signature of a payload.
pub open spec fn legacy_signature(secret: Seq<char>, payload: Seq<char>) -> Seq<char> {
    hex_text(text_hash(secret + payload) as nat, 16)
}

/// The headers of a request: the configured ones, then the type of the content unless they
/// name it, then the signature where there is a secret.
pub open spec fn webhook_headers(config: WebhookConfig, payload: Seq<char>) -> Seq<
    (Seq<char>, Seq<char>),
> {
    let configured = header_views(config.headers@);
    let typed = if has_content_type(configured) {
        configured
    } else {
        configured.push(("Content-Type"@, "application/json"@))
    };
    if is_blank(config.secret@) {
        typed
    } else {
        typed.push(("X-Webhook-Signature"@, legacy_signature(trimmed(config.secret@), payload)))
    }
}

/// The step that posts a payload to a webhook.
pub open spec fn webhook_step(config: WebhookConfig, payload: Seq<char>) -> StepView {
    StepView::Send(
        RequestView {
            method: Method::Post,
            url: trimmed(config.url@),
            headers: webhook_headers(config, payload),
            body: BodyView::Text(payload),
        },
        PendingView::Message { label: "Webhook"@, failure: "Failed to send webhook: "@ },
    )
}

/// Posts a payload to a webhook.
pub fn send_webhook_raw(config: &WebhookConfig, payload: &str) -> (step: Step)
    ensures
        step@ == webhook_step(*config, payload@),
{
    let mut headers: Vec<(String, String)> = Vec::new();
    let mut found = false;
    let mut i: usize = 0;
    let ghost configured = header_views(config.headers@);
    assert(header_views(headers@) =~= configured.take(0));
    while i < config.headers.len()
        invariant
            i <= config.headers@.len(),
            configured == header_views(config.headers@),
            header_views(headers@) == configured.take(i as int),
            found == (exists|j: int| 0 <= j < i && names_content_type(#[trigger] configured[j])),
        decreases config.headers@.len() - i,
    {
        let ghost before = headers@;
        let (key, value) = &config.headers[i];
        assert(configured[i as int] == (key@, value@));
        if eq_ignore_ascii_case(key.as_str(), "content-type") {
            assert(names_content_type(configured[i as int]));
            found = true;
        }
        headers.push((key.clone(), value.clone()));
        assert(header_views(headers@) =~= header_views(before).push((key@, value@)));
        assert(header_views(headers@) =~= configured.take(i + 1));
        i = i + 1;
    }
    assert(header_views(headers@) =~= configured);
    if !found {
        let ghost before = headers@;
        headers.push(("Content-Type".to_owned(), "application/json".to_owned()));
        assert(header_views(headers@) =~= header_views(before).push(
            ("Content-Type"@, "application/json"@),
        ));
    }
    let secret = trim(config.secret.as_str());
    if !secret.is_empty() {
        let ghost before = headers@;
        let signature = compute_legacy_signature(secret, payload);
        headers.push(("X-Webhook-Signature".to_owned(), signature));
        assert(header_views(headers@) =~= header_views(before).push(
            ("X-Webhook-Signature"@, signature@),
        ));
    }
    Step::Send(
        Request {
            method: Method::Post,
            url: trim(config.url.as_str()).to_owned(),
            headers,
            body: Body::Text(payload.to_owned()),
        },
        Pending::Message {
            label: "Webhook".to_owned(),
            failure: "Failed to send webhook: ".to_owned(),
        },
    )
}

/// What a text message needs on a webhook.
pub open spec fn webhook_sms_step(
    config: WebhookConfig,
    message: SmsMessage,
    force: bool,
) -> StepView {
    if !force && (!config.enabled || !config.forward_sms) {
        skipped("Webhook skipped"@)
    } else if is_blank(config.url@) {
        refused("Webhook URL is not configured"@)
    } else {
        webhook_step(config, sms_text(config.sms_template@, message, true))
    }
}

/// Sends a text message to a webhook.
pub fn send_webhook_sms(config: &WebhookConfig, message: &SmsMessage, force: bool) -> (step: Step)
    ensures
        step@ == webhook_sms_step(*config, *message, force),
{
    if !force && (!config.enabled || !config.forward_sms) {
        return skip("Webhook skipped");
    }
    if trim(config.url.as_str()).is_empty() {
        return refuse("Webhook URL is not configured");
    }
    let payload = render_sms_template(config.sms_template.as_str(), message, true);
    send_webhook_raw(config, payload.as_str())
}

/// What a call needs on a webhook.
pub open spec fn webhook_call_step(
    config: WebhookConfig,
    call: CallRecord,
    force: bool,
) -> StepView {
    if !force && (!config.enabled || !config.forward_calls) {
        skipped("Webhook skipped"@)
    } else if is_blank(config.url@) {
        refused("Webhook URL is not configured"@)
    } else {
        webhook_step(config, call_text(config.call_template@, call, true))
    }
}

/// Sends a call to a webhook.
pub fn send_webhook_call(config: &WebhookConfig, call: &CallRecord, force: bool) -> (step: Step)
    ensures
        step@ == webhook_call_step(*config, *call, force),
{
    if !force && (!config.enabled || !config.forward_calls) {
        return skip("Webhook skipped");
    }
    if trim(config.url.as_str()).is_empty() {
        return refuse("Webhook URL is not configured");
    }
    let payload = render_call_template(config.call_template.as_str(), call, true);
    send_webhook_raw(config, payload.as_str())
}

/// What a dynamic DNS event needs on a webhook.
pub open spec fn webhook_ddns_step(config: WebhookConfig, event: DdnsEvent) -> StepView {
    if !config.enabled || !config.forward_ddns {
        skipped("Webhook skipped"@)
    } else if is_blank(config.url@) {
        refused("Webhook URL is not configured"@)
    } else {
        webhook_step(config, ddns_text(config.ddns_template@, event, true))
    }
}

/// Sends a dynamic DNS event to a webhook.
pub fn send_webhook_ddns(config: &WebhookConfig, event: &DdnsEvent) -> (step: Step)
    ensures
        step@ == webhook_ddns_step(*config, *event),
{
    if !config.enabled || !config.forward_ddns {
        return skip("Webhook skipped");
    }
    if trim(config.url.as_str()).is_empty() {
        return refuse("Webhook URL is not configured");
    }
    let payload = render_ddns_template(config.ddns_template.as_str(), event, true);
    send_webhook_raw(config, payload.as_str())
}

} // verus!
