//! What holds of deliveries as a whole.
use crate::channel_laws::step_of;
use crate::channels::webhook::{has_content_type, names_content_type, webhook_headers};
use crate::channels::wecom_app::{reply_refuses_token, wecom_post_step, wecom_token_request};
use crate::clock::{epoch_millis, epoch_secs, is_reading, Span};
use crate::config::{
    channel_label, channel_order, MessageChannelConfig, NotificationChannel, NotificationConfig,
    WebhookConfig,
};
use crate::delivery::{header_views, PendingView, Reply, StepView, WecomMessageView};
use crate::json::{read_json, Json};
use crate::models::SmsMessage;
use crate::reply::{complaint, is_success_number, judged, outcome, refuses_token};
use crate::sender::{
    failure_reports, forward_outcome, is_call_step, is_ddns_step, is_sms_step, is_step_of,
    is_test_message, next_step, notice_step, sms_step, token_source, tokens_after_grant,
    tokens_after_reply, Notice, WecomTokenView,
};
use crate::text::{ascii_lower, joined, trimmed};
use crate::token_cache::{refresh_after_secs, CachedToken, TokenKey};
use vstd::prelude::*;
use vstd::utf8::encode_utf8;

verus! {

/// Whether the switches of a message channel have it forward a notification.
pub open spec fn message_channel_forwards(common: MessageChannelConfig, notice: Notice<'_>) -> bool {
    match notice {
        Notice::Sms(_) => common.enabled && common.forward_sms,
        Notice::Call(_) => common.enabled && common.forward_calls,
        Notice::Ddns(_) => common.enabled && common.forward_ddns,
    }
}

/// Whether the switches of a webhook have it forward a notification.
pub open spec fn webhook_forwards(webhook: WebhookConfig, notice: Notice<'_>) -> bool {
    webhook.enabled && match notice {
        Notice::Sms(_) => webhook.forward_sms,
        Notice::Call(_) => webhook.forward_calls,
        Notice::Ddns(_) => webhook.forward_ddns,
    }
}

/// Whether the switches of a channel have it forward a notification.
pub open spec fn channel_forwards(
    channel: NotificationChannel,
    config: NotificationConfig,
    notice: Notice<'_>,
) -> bool {
    match channel {
        NotificationChannel::Webhook => webhook_forwards(config.webhook, notice),
        NotificationChannel::Bark => message_channel_forwards(config.bark.common, notice),
        NotificationChannel::PushPlus => message_channel_forwards(config.pushplus.common, notice),
        NotificationChannel::WecomApp => message_channel_forwards(config.wecom_app.common, notice),
        NotificationChannel::WecomRobot => message_channel_forwards(
            config.wecom_robot.common,
            notice,
        ),
        NotificationChannel::DingtalkRobot => message_channel_forwards(
            config.dingtalk_robot.common,
            notice,
        ),
        NotificationChannel::DingtalkApp => message_channel_forwards(
            config.dingtalk_app.common,
            notice,
        ),
        NotificationChannel::FeishuRobot => message_channel_forwards(
            config.feishu_robot.common,
            notice,
        ),
        NotificationChannel::Telegram => message_channel_forwards(config.telegram.common, notice),
    }
}

/// Whether a delivery is over, and well, before anything was sent.
pub open spec fn is_skipped(step: StepView) -> bool {
    step matches StepView::Done(Ok(_))
}

/// A channel skips a notification exactly if its switches are off: nothing is sent, and the
/// delivery counts as one that went well. A channel that is switched on sends something or
/// reports what its configuration lacks.
pub proof fn law_channel_skips_iff_switched_off(
    channel: NotificationChannel,
    config: NotificationConfig,
    notice: Notice<'_>,
    secs: u64,
    millis: u128,
)
    ensures
        is_skipped(notice_step(channel, config, notice, secs, millis)) <==> !channel_forwards(
            channel,
            config,
            notice,
        ),
{
}

/// A test is never skipped, whatever the switches say.
pub proof fn law_test_is_never_skipped(
    channel: NotificationChannel,
    config: NotificationConfig,
    message: SmsMessage,
    secs: u64,
    millis: u128,
)
    ensures
        !is_skipped(sms_step(channel, config, message, true, secs, millis)),
{
}

/// Where the switches are on, to force a text message changes nothing of what is sent.
pub proof fn law_forced_message_is_the_forwarded_one(
    channel: NotificationChannel,
    config: NotificationConfig,
    message: SmsMessage,
    secs: u64,
    millis: u128,
)
    requires
        channel_forwards(channel, config, Notice::Sms(&message)),
    ensures
        sms_step(channel, config, message, true, secs, millis) == sms_step(
            channel,
            config,
            message,
            false,
            secs,
            millis,
        ),
{
}

/// Forwarding goes well exactly if every channel does.
pub proof fn law_forwarding_succeeds_iff_every_channel_does(
    results: Seq<Result<Seq<char>, Seq<char>>>,
)
    ensures
        forward_outcome(results) is Ok <==> forall|i: int|
            0 <= i < results.len() ==> (#[trigger] results[i]) is Ok,
    decreases results.len(),
{
    if results.len() > 0 {
        let before = results.drop_last();
        law_forwarding_succeeds_iff_every_channel_does(before);
        assert(results.last() == results[results.len() - 1]);
        if results.last() is Ok {
            assert forall|i: int| 0 <= i < results.len() && forward_outcome(before) is Ok implies (
            #[trigger] results[i]) is Ok by {
                if i < before.len() {
                    assert(before[i] == results[i]);
                }
            }
            if forall|i: int| 0 <= i < results.len() ==> (#[trigger] results[i]) is Ok {
                assert forall|i: int| 0 <= i < before.len() implies (#[trigger] before[i]) is Ok by {
                    assert(before[i] == results[i]);
                }
            }
        } else {
            assert(failure_reports(results).len() > 0);
        }
    }
}

/// A channel that failed is reported by its name and reason, behind those served before it;
/// one that went well is not.
pub proof fn law_every_failure_is_reported(
    before: Seq<Result<Seq<char>, Seq<char>>>,
    result: Result<Seq<char>, Seq<char>>,
)
    ensures
        result is Ok ==> failure_reports(before.push(result)) == failure_reports(before),
        result is Err ==> failure_reports(before.push(result)) == failure_reports(before).push(
            channel_label(channel_order()[before.len() as int]) + ": "@ + result->Err_0,
        ),
{
    assert(before.push(result).drop_last() =~= before);
}

/// The channels are served in a fixed order, and reported by their names.
pub proof fn law_channels_are_served_in_order()
    ensures
        channel_order() == seq![
            NotificationChannel::Webhook,
            NotificationChannel::Bark,
            NotificationChannel::PushPlus,
            NotificationChannel::WecomApp,
            NotificationChannel::WecomRobot,
            NotificationChannel::DingtalkRobot,
            NotificationChannel::DingtalkApp,
            NotificationChannel::FeishuRobot,
            NotificationChannel::Telegram,
        ],
        channel_order().map_values(|channel: NotificationChannel| channel_label(channel)) == seq![
            "Webhook"@,
            "Bark"@,
            "PushPlus"@,
            "企业微信应用消息"@,
            "企业微信群机器人"@,
            "钉钉群自定义机器人"@,
            "钉钉企业内机器人"@,
            "飞书机器人"@,
            "Telegram机器人"@,
        ],
{
    let labels = channel_order().map_values(|channel: NotificationChannel| channel_label(channel));
    assert(labels =~= seq![
        "Webhook"@,
        "Bark"@,
        "PushPlus"@,
        "企业微信应用消息"@,
        "企业微信群机器人"@,
        "钉钉群自定义机器人"@,
        "钉钉企业内机器人"@,
        "飞书机器人"@,
        "Telegram机器人"@,
    ]);
}

/// Forwarding that failed is reported by all its failures, with semicolons between them.
pub proof fn law_failures_are_reported_together(results: Seq<Result<Seq<char>, Seq<char>>>)
    ensures
        forward_outcome(results) matches Err(text) ==> text == joined(
            failure_reports(results),
            "; "@,
        ),
        results.len() == 0 ==> failure_reports(results).len() == 0,
{
}

/// Whatever is sent for a notification is sent at a reading of the system clock, by its whole
/// seconds and milliseconds; and where the time plays no part, it is the same at any time.
pub proof fn law_notification_is_sent_by_the_clock(
    channel: NotificationChannel,
    config: NotificationConfig,
    notice: Notice<'_>,
    force: bool,
    step: StepView,
)
    requires
        match notice {
            Notice::Sms(message) => is_sms_step(channel, config, *message, force, step),
            Notice::Call(call) => is_call_step(channel, config, *call, force, step),
            Notice::Ddns(event) => is_ddns_step(channel, config, *event, step),
        },
    ensures
        exists|secs: u64, nanos: u32|
            nanos < 1_000_000_000 && step == #[trigger] step_of(
                channel,
                config,
                notice,
                force,
                secs,
                (secs * 1000 + nanos / 1_000_000) as u128,
            ),
        channel != NotificationChannel::DingtalkRobot && channel
            != NotificationChannel::FeishuRobot ==> step == step_of(
            channel,
            config,
            notice,
            force,
            0,
            0,
        ),
        is_step_of(channel, config, notice, step) <== !force || notice is Ddns,
{
    let passed = choose|passed: Option<Span>| #[trigger]
        is_reading(passed) && step_of(
            channel,
            config,
            notice,
            force,
            epoch_secs(passed),
            epoch_millis(passed) as u128,
        ) == step;
    let span = match passed {
        Some(span) => span,
        None => Span { secs: 0, nanos: 0 },
    };
    assert(epoch_millis(passed) == span.secs * 1000 + span.nanos / 1_000_000);
    assert(step == step_of(
        channel,
        config,
        notice,
        force,
        span.secs,
        (span.secs * 1000 + span.nanos / 1_000_000) as u128,
    ));
}

/// Forwarding sends what is sent for a notification that is not forced.
pub proof fn law_forwarding_does_not_force(
    channel: NotificationChannel,
    config: NotificationConfig,
    notice: Notice<'_>,
    step: StepView,
)
    ensures
        is_step_of(channel, config, notice, step) <==> match notice {
            Notice::Sms(message) => is_sms_step(channel, config, *message, false, step),
            Notice::Call(call) => is_call_step(channel, config, *call, false, step),
            Notice::Ddns(event) => is_ddns_step(channel, config, *event, step),
        },
{
}

/// A channel is tested with one text message, whose time alone is left open.
pub proof fn law_test_message_is_the_same(message: SmsMessage)
    requires
        is_test_message(message),
    ensures
        message.id == 0,
        message.direction@ == "incoming"@,
        message.phone_number@ == "+8613800138000"@,
        message.content@ == "这是一条测试短信 (Notification Test)"@,
        message.status@ == "received"@,
        message.pdu is None,
{
}

/// Messages can be signed exactly if the two secrets that sign are short enough.
pub proof fn law_short_secrets_can_sign(config: NotificationConfig)
    ensures
        config.is_signable() <==> encode_utf8(trimmed(config.dingtalk_robot.secret@)).len()
            <= 0x1FFF_FFFF_FFFF_FE00 && encode_utf8(trimmed(config.feishu_robot.secret@)).len()
            <= 0x1FFF_FFFF_FFFF_FE00,
{
}

/// A delivery goes well only with a status of success.
pub proof fn law_success_needs_a_success_status(
    label: Seq<char>,
    code: int,
    body: Seq<char>,
    reply: Option<Json>,
)
    ensures
        judged(label, code, body, reply) is Ok ==> is_success_number(code),
{
}

/// An answer that is no JSON is judged by its status alone.
pub proof fn law_status_decides_without_json(label: Seq<char>, code: int, body: Seq<char>)
    ensures
        judged(label, code, body, None) is Ok <==> is_success_number(code),
{
}

/// An answer that refuses the access token is never taken for success.
pub proof fn law_refused_token_is_no_success(label: Seq<char>, code: int, body: Seq<char>)
    requires
        refuses_token(read_json(body)),
    ensures
        outcome(label, code, body) is Err,
{
    assert(complaint(label, body, read_json(body)->0) is Some);
}

/// A message of a WeCom application is sent a second time exactly if its first access token
/// was refused, and never a third time: what is posted is awaited as it is, and an answer to
/// it ends the delivery or has the message marked and sent anew, which ends it for a message
/// that is marked.
pub proof fn law_message_is_sent_at_most_twice(
    message: WecomMessageView,
    token: Result<Seq<char>, Seq<char>>,
    reply: Reply,
)
    ensures
        wecom_post_step(message, token) matches StepView::Send(_, pending) ==> pending
            == PendingView::Wecom(message),
        message.retried || !reply_refuses_token(reply) ==> next_step(
            PendingView::Wecom(message),
            reply,
        ) is Done,
        !message.retried && reply_refuses_token(reply) ==> next_step(
            PendingView::Wecom(message),
            reply,
        ) == StepView::WecomToken(WecomMessageView { retried: true, ..message }),
{
}

/// A token that was refused is not used again: the message is sent anew with a token that
/// is requested for it.
pub proof fn law_refused_token_is_not_used_again(
    tokens: Map<TokenKey, CachedToken>,
    message: WecomMessageView,
    reply: Reply,
    now: Span,
)
    requires
        !message.retried,
        reply_refuses_token(reply),
    ensures
        token_source(
            tokens_after_reply(tokens, PendingView::Wecom(message), reply),
            (message.corp_id, message.secret),
            now,
        ) == WecomTokenView::Missing(wecom_token_request(message.corp_id, message.secret)),
{
}

/// A token that was granted serves until it is due, and then is requested again.
pub proof fn law_granted_token_serves_until_it_is_due(
    tokens: Map<TokenKey, CachedToken>,
    key: TokenKey,
    token: Seq<char>,
    expires_in: Option<u64>,
    now: Span,
    later: Span,
)
    ensures
        token_source(tokens_after_grant(tokens, key, Ok((token, expires_in)), now), key, later) == (
        if later.total_nanos() < now.total_nanos() + refresh_after_secs(expires_in) * 1_000_000_000 {
            WecomTokenView::Cached(token)
        } else {
            WecomTokenView::Missing(wecom_token_request(key.0, key.1))
        }),
{
}

/// What happens to the token of one corporation and secret leaves the others as they are.
pub proof fn law_tokens_are_kept_apart(
    tokens: Map<TokenKey, CachedToken>,
    key: TokenKey,
    grant: Result<(Seq<char>, Option<u64>), Seq<char>>,
    message: WecomMessageView,
    reply: Reply,
    now: Span,
    other: TokenKey,
    later: Span,
)
    requires
        other != key,
        other != (message.corp_id, message.secret),
    ensures
        token_source(tokens_after_grant(tokens, key, grant, now), other, later) == token_source(
            tokens,
            other,
            later,
        ),
        token_source(
            tokens_after_reply(tokens, PendingView::Wecom(message), reply),
            other,
            later,
        ) == token_source(tokens, other, later),
{
}

/// A request to a webhook names the type of its content, and carries the configured headers
/// first and unchanged.
pub proof fn law_webhook_request_names_its_content_type(config: WebhookConfig, payload: Seq<char>)
    ensures
        has_content_type(webhook_headers(config, payload)),
        webhook_headers(config, payload).take(config.headers@.len() as int) == header_views(
            config.headers@,
        ),
{
    let configured = header_views(config.headers@);
    let headers = webhook_headers(config, payload);
    assert(headers.take(config.headers@.len() as int) =~= configured);
    if has_content_type(configured) {
        let i = choose|i: int|
            0 <= i < configured.len() && names_content_type(#[trigger] configured[i]);
        assert(headers[i] == configured[i]);
    } else {
        reveal_strlit("Content-Type");
        reveal_strlit("content-type");
        let lower = |c: char| ascii_lower(c);
        assert(ascii_lower('C') == 'c');
        assert(ascii_lower('T') == 't');
        assert("Content-Type"@.map_values(lower) =~= "content-type"@.map_values(lower));
        assert(names_content_type(headers[configured.len() as int]));
    }
}

} // verus!
