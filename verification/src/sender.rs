//! The sender: which channel a notification goes to next, what follows an answer, and the
//! access tokens that are kept in between.
use crate::channels::bark::{
    bark_call_step, bark_ddns_step, bark_sms_step, send_bark_call, send_bark_ddns, send_bark_sms,
};
use crate::channels::dingtalk_app::{
    dingtalk_app_call_step, dingtalk_app_ddns_step, dingtalk_app_sms_step, send_dingtalk_app_call,
    send_dingtalk_app_ddns, send_dingtalk_app_sms,
};
use crate::channels::dingtalk_robot::{
    dingtalk_robot_call_step, dingtalk_robot_ddns_step, dingtalk_robot_sms_step,
    send_dingtalk_robot_call, send_dingtalk_robot_ddns, send_dingtalk_robot_sms,
};
use crate::channels::feishu_robot::{
    feishu_robot_call_step, feishu_robot_ddns_step, feishu_robot_sms_step, send_feishu_robot_call,
    send_feishu_robot_ddns, send_feishu_robot_sms,
};
use crate::channels::pushplus::{
    pushplus_call_step, pushplus_ddns_step, pushplus_sms_step, send_pushplus_call,
    send_pushplus_ddns, send_pushplus_sms,
};
use crate::channels::telegram::{
    send_telegram_call, send_telegram_ddns, send_telegram_sms, telegram_call_step,
    telegram_ddns_step, telegram_sms_step,
};
use crate::channels::webhook::{
    send_webhook_call, send_webhook_ddns, send_webhook_sms, webhook_call_step, webhook_ddns_step,
    webhook_sms_step,
};
use crate::channels::wecom_app::{
    post_wecom_app_message, read_wecom_access_token, reply_refuses_token,
    request_wecom_access_token, send_wecom_app_call, send_wecom_app_ddns, send_wecom_app_sms,
    tokens_after_post, wecom_app_call_step, wecom_app_ddns_step, wecom_app_sms_step, wecom_grant,
    wecom_next_step, wecom_outcome, wecom_token_request, WecomTokenReply,
};
use crate::channels::wecom_robot::{
    send_wecom_robot_call, send_wecom_robot_ddns, send_wecom_robot_sms, wecom_robot_call_step,
    wecom_robot_ddns_step, wecom_robot_sms_step,
};
use crate::clock::{
    beijing_now_string, beijing_time, epoch_millis, epoch_secs, is_reading, Span,
};
use crate::config::{
    all_channels, channel_label, channel_order, NotificationChannel, NotificationConfig,
};
use crate::delivery::{
    conclude_message, message_outcome, Pending, PendingView, Reply, Request, RequestView, Step,
    StepView,
};
use crate::models::{CallRecord, DdnsEvent, SmsMessage};
use crate::reply::result_view;
use crate::text::{join, joined, views};
use crate::token_cache::{
    fresh_token, refresh_after, refresh_after_secs, CachedToken, TokenKey, WecomTokenCache,
};
use vstd::prelude::*;

verus! {

/// What a text message needs on a channel, while the system clock shows a time.
pub open spec fn sms_step(
    channel: NotificationChannel,
    config: NotificationConfig,
    message: SmsMessage,
    force: bool,
    secs: u64,
    millis: u128,
) -> StepView {
    match channel {
        NotificationChannel::Webhook => webhook_sms_step(config.webhook, message, force),
        NotificationChannel::Bark => bark_sms_step(config.bark, message, force),
        NotificationChannel::PushPlus => pushplus_sms_step(config.pushplus, message, force),
        NotificationChannel::WecomApp => wecom_app_sms_step(config.wecom_app, message, force),
        NotificationChannel::WecomRobot => wecom_robot_sms_step(config.wecom_robot, message, force),
        NotificationChannel::DingtalkRobot => dingtalk_robot_sms_step(
            config.dingtalk_robot,
            message,
            force,
            millis,
        ),
        NotificationChannel::DingtalkApp => dingtalk_app_sms_step(
            config.dingtalk_app,
            message,
            force,
        ),
        NotificationChannel::FeishuRobot => feishu_robot_sms_step(
            config.feishu_robot,
            message,
            force,
            secs,
        ),
        NotificationChannel::Telegram => telegram_sms_step(config.telegram, message, force),
    }
}

/// Whether a step is what a text message needs on a channel, at a reading of the system clock.
pub open spec fn is_sms_step(
    channel: NotificationChannel,
    config: NotificationConfig,
    message: SmsMessage,
    force: bool,
    step: StepView,
) -> bool {
    exists|passed: Option<Span>| #[trigger]
        is_reading(passed) && sms_step(
            channel,
            config,
            message,
            force,
            epoch_secs(passed),
            epoch_millis(passed) as u128,
        ) == step
}

/// Sends a text message to a channel.
pub fn send_sms_to_channel(
    channel: NotificationChannel,
    config: &NotificationConfig,
    message: &SmsMessage,
    force: bool,
) -> (step: Step)
    requires
        config.is_signable(),
    ensures
        is_sms_step(channel, *config, *message, force, step@),
{
    let step = match channel {
        NotificationChannel::Webhook => send_webhook_sms(&config.webhook, message, force),
        NotificationChannel::Bark => send_bark_sms(&config.bark, message, force),
        NotificationChannel::PushPlus => send_pushplus_sms(&config.pushplus, message, force),
        NotificationChannel::WecomApp => send_wecom_app_sms(&config.wecom_app, message, force),
        NotificationChannel::WecomRobot => send_wecom_robot_sms(
            &config.wecom_robot,
            message,
            force,
        ),
        NotificationChannel::DingtalkRobot => send_dingtalk_robot_sms(
            &config.dingtalk_robot,
            message,
            force,
        ),
        NotificationChannel::DingtalkApp => send_dingtalk_app_sms(
            &config.dingtalk_app,
            message,
            force,
        ),
        NotificationChannel::FeishuRobot => send_feishu_robot_sms(
            &config.feishu_robot,
            message,
            force,
        ),
        NotificationChannel::Telegram => send_telegram_sms(&config.telegram, message, force),
    };
    let ghost none: Option<Span> = None;
    assert(is_reading(none));
    step
}

/// What a call needs on a channel, while the system clock shows a time.
pub open spec fn call_step(
    channel: NotificationChannel,
    config: NotificationConfig,
    call: CallRecord,
    force: bool,
    secs: u64,
    millis: u128,
) -> StepView {
    match channel {
        NotificationChannel::Webhook => webhook_call_step(config.webhook, call, force),
        NotificationChannel::Bark => bark_call_step(config.bark, call, force),
        NotificationChannel::PushPlus => pushplus_call_step(config.pushplus, call, force),
        NotificationChannel::WecomApp => wecom_app_call_step(config.wecom_app, call, force),
        NotificationChannel::WecomRobot => wecom_robot_call_step(config.wecom_robot, call, force),
        NotificationChannel::DingtalkRobot => dingtalk_robot_call_step(
            config.dingtalk_robot,
            call,
            force,
            millis,
        ),
        NotificationChannel::DingtalkApp => dingtalk_app_call_step(
            config.dingtalk_app,
            call,
            force,
        ),
        NotificationChannel::FeishuRobot => feishu_robot_call_step(
            config.feishu_robot,
            call,
            force,
            secs,
        ),
        NotificationChannel::Telegram => telegram_call_step(config.telegram, call, force),
    }
}

/// Whether a step is what a call needs on a channel, at a reading of the system clock.
pub open spec fn is_call_step(
    channel: NotificationChannel,
    config: NotificationConfig,
    call: CallRecord,
    force: bool,
    step: StepView,
) -> bool {
    exists|passed: Option<Span>| #[trigger]
        is_reading(passed) && call_step(
            channel,
            config,
            call,
            force,
            epoch_secs(passed),
            epoch_millis(passed) as u128,
        ) == step
}

/// Sends a call to a channel.
pub fn send_call_to_channel(
    channel: NotificationChannel,
    config: &NotificationConfig,
    call: &CallRecord,
    force: bool,
) -> (step: Step)
    requires
        config.is_signable(),
    ensures
        is_call_step(channel, *config, *call, force, step@),
{
    let step = match channel {
        NotificationChannel::Webhook => send_webhook_call(&config.webhook, call, force),
        NotificationChannel::Bark => send_bark_call(&config.bark, call, force),
        NotificationChannel::PushPlus => send_pushplus_call(&config.pushplus, call, force),
        NotificationChannel::WecomApp => send_wecom_app_call(&config.wecom_app, call, force),
        NotificationChannel::WecomRobot => send_wecom_robot_call(&config.wecom_robot, call, force),
        NotificationChannel::DingtalkRobot => send_dingtalk_robot_call(
            &config.dingtalk_robot,
            call,
            force,
        ),
        NotificationChannel::DingtalkApp => send_dingtalk_app_call(
            &config.dingtalk_app,
            call,
            force,
        ),
        NotificationChannel::FeishuRobot => send_feishu_robot_call(
            &config.feishu_robot,
            call,
            force,
        ),
        NotificationChannel::Telegram => send_telegram_call(&config.telegram, call, force),
    };
    let ghost none: Option<Span> = None;
    assert(is_reading(none));
    step
}

/// What a dynamic DNS event needs on a channel, while the system clock shows a time.
pub open spec fn ddns_step(
    channel: NotificationChannel,
    config: NotificationConfig,
    event: DdnsEvent,
    secs: u64,
    millis: u128,
) -> StepView {
    match channel {
        NotificationChannel::Webhook => webhook_ddns_step(config.webhook, event),
        NotificationChannel::Bark => bark_ddns_step(config.bark, event),
        NotificationChannel::PushPlus => pushplus_ddns_step(config.pushplus, event),
        NotificationChannel::WecomApp => wecom_app_ddns_step(config.wecom_app, event),
        NotificationChannel::WecomRobot => wecom_robot_ddns_step(config.wecom_robot, event),
        NotificationChannel::DingtalkRobot => dingtalk_robot_ddns_step(
            config.dingtalk_robot,
            event,
            millis,
        ),
        NotificationChannel::DingtalkApp => dingtalk_app_ddns_step(config.dingtalk_app, event),
        NotificationChannel::FeishuRobot => feishu_robot_ddns_step(
            config.feishu_robot,
            event,
            secs,
        ),
        NotificationChannel::Telegram => telegram_ddns_step(config.telegram, event),
    }
}

/// Whether a step is what a dynamic DNS event needs on a channel, at a reading of the system clock.
pub open spec fn is_ddns_step(
    channel: NotificationChannel,
    config: NotificationConfig,
    event: DdnsEvent,
    step: StepView,
) -> bool {
    exists|passed: Option<Span>| #[trigger]
        is_reading(passed) && ddns_step(
            channel,
            config,
            event,
            epoch_secs(passed),
            epoch_millis(passed) as u128,
        ) == step
}

/// Sends a dynamic DNS event to a channel.
pub fn send_ddns_to_channel(
    channel: NotificationChannel,
    config: &NotificationConfig,
    event: &DdnsEvent,
) -> (step: Step)
    requires
        config.is_signable(),
    ensures
        is_ddns_step(channel, *config, *event, step@),
{
    let step = match channel {
        NotificationChannel::Webhook => send_webhook_ddns(&config.webhook, event),
        NotificationChannel::Bark => send_bark_ddns(&config.bark, event),
        NotificationChannel::PushPlus => send_pushplus_ddns(&config.pushplus, event),
        NotificationChannel::WecomApp => send_wecom_app_ddns(&config.wecom_app, event),
        NotificationChannel::WecomRobot => send_wecom_robot_ddns(&config.wecom_robot, event),
        NotificationChannel::DingtalkRobot => send_dingtalk_robot_ddns(
            &config.dingtalk_robot,
            event,
        ),
        NotificationChannel::DingtalkApp => send_dingtalk_app_ddns(&config.dingtalk_app, event),
        NotificationChannel::FeishuRobot => send_feishu_robot_ddns(&config.feishu_robot, event),
        NotificationChannel::Telegram => send_telegram_ddns(&config.telegram, event),
    };
    let ghost none: Option<Span> = None;
    assert(is_reading(none));
    step
}

/// The message that tests a channel, but for its time.
pub open spec fn is_test_message(message: SmsMessage) -> bool {
    &&& message.id == 0
    &&& message.direction@ == "incoming"@
    &&& message.phone_number@ == "+8613800138000"@
    &&& message.content@ == "这是一条测试短信 (Notification Test)"@
    &&& message.status@ == "received"@
    &&& message.pdu is None
}

/// The message that tests a channel.
pub fn test_message(timestamp: String) -> (message: SmsMessage)
    ensures
        is_test_message(message),
        message.timestamp@ == timestamp@,
{
    SmsMessage {
        id: 0,
        direction: "incoming".to_owned(),
        phone_number: "+8613800138000".to_owned(),
        content: "这是一条测试短信 (Notification Test)".to_owned(),
        timestamp,
        status: "received".to_owned(),
        pdu: None,
    }
}

/// A notification.
pub enum Notice<'a> {
    Sms(&'a SmsMessage),
    Call(&'a CallRecord),
    Ddns(&'a DdnsEvent),
}

/// What a notification needs on a channel that is not forced to send it.
pub open spec fn notice_step(
    channel: NotificationChannel,
    config: NotificationConfig,
    notice: Notice<'_>,
    secs: u64,
    millis: u128,
) -> StepView {
    match notice {
        Notice::Sms(message) => sms_step(channel, config, *message, false, secs, millis),
        Notice::Call(call) => call_step(channel, config, *call, false, secs, millis),
        Notice::Ddns(event) => ddns_step(channel, config, *event, secs, millis),
    }
}

/// Whether a step is what a notification needs on a channel that is not forced to send it, at
/// a reading of the system clock.
pub open spec fn is_step_of(
    channel: NotificationChannel,
    config: NotificationConfig,
    notice: Notice<'_>,
    step: StepView,
) -> bool {
    exists|passed: Option<Span>| #[trigger]
        is_reading(passed) && notice_step(
            channel,
            config,
            notice,
            epoch_secs(passed),
            epoch_millis(passed) as u128,
        ) == step
}

/// Sends a notification to a channel.
pub fn send_to_channel(
    channel: NotificationChannel,
    config: &NotificationConfig,
    notice: &Notice<'_>,
) -> (step: Step)
    requires
        config.is_signable(),
    ensures
        is_step_of(channel, *config, *notice, step@),
{
    match notice {
        Notice::Sms(message) => send_sms_to_channel(channel, config, message, false),
        Notice::Call(call) => send_call_to_channel(channel, config, call, false),
        Notice::Ddns(event) => send_ddns_to_channel(channel, config, event),
    }
}

/// The reports of the failures among the outcomes of the channels, in their order.
pub open spec fn failure_reports(results: Seq<Result<Seq<char>, Seq<char>>>) -> Seq<Seq<char>>
    decreases results.len(),
{
    if results.len() == 0 {
        seq![]
    } else {
        let before = failure_reports(results.drop_last());
        match results.last() {
            Ok(_) => before,
            Err(reason) => before.push(
                channel_label(channel_order()[results.len() - 1]) + ": "@ + reason,
            ),
        }
    }
}

/// The outcome of forwarding a notification, given the outcomes of the channels.
pub open spec fn forward_outcome(results: Seq<Result<Seq<char>, Seq<char>>>) -> Result<
    (),
    Seq<char>,
> {
    if failure_reports(results).len() == 0 {
        Ok(())
    } else {
        Err(joined(failure_reports(results), "; "@))
    }
}

fn channel_at(position: usize) -> (channel: NotificationChannel)
    requires
        position < 9,
    ensures
        channel == channel_order()[position as int],
{
    all_channels()[position]
}

/// A notification on its way through the channels, one after the other.
pub struct Forward<'a> {
    config: &'a NotificationConfig,
    notice: Notice<'a>,
    position: usize,
    errors: Vec<String>,
    results: Ghost<Seq<Result<Seq<char>, Seq<char>>>>,
}

impl<'a> Forward<'a> {
    #[verifier::type_invariant]
    spec fn is_on_its_way(self) -> bool {
        &&& self.config.is_signable()
        &&& self.position == self.results@.len()
        &&& self.position <= 9
        &&& views(self.errors@) == failure_reports(self.results@)
    }

    /// The configuration that is followed.
    pub closed spec fn config(self) -> NotificationConfig {
        *self.config
    }

    /// What is forwarded.
    pub closed spec fn notice(self) -> Notice<'a> {
        self.notice
    }

    /// The outcomes of the channels that were served.
    pub closed spec fn results(self) -> Seq<Result<Seq<char>, Seq<char>>> {
        self.results@
    }

    fn new(config: &'a NotificationConfig, notice: Notice<'a>) -> (forward: Forward<'a>)
        requires
            config.is_signable(),
        ensures
            forward.config() == *config,
            forward.notice() == notice,
            forward.results().len() == 0,
    {
        let errors: Vec<String> = Vec::new();
        assert(views(errors@) =~= failure_reports(seq![]));
        Forward { config, notice, position: 0, errors, results: Ghost(Seq::empty()) }
    }

    /// What the next channel needs; nothing where all channels were served.
    pub fn next(&self) -> (step: Option<Step>)
        ensures
            step is Some <==> self.results().len() < 9,
            step matches Some(step) ==> is_step_of(
                channel_order()[self.results().len() as int],
                self.config(),
                self.notice(),
                step@,
            ),
    {
        proof {
            use_type_invariant(self);
        }
        if self.position >= 9 {
            return None;
        }
        let channel = channel_at(self.position);
        let step = send_to_channel(channel, self.config, &self.notice);
        Some(step)
    }

    /// Takes down the outcome of the channel that was served, so that the next is due.
    pub fn record(self, result: Result<String, String>) -> (forward: Forward<'a>)
        requires
            self.results().len() < 9,
        ensures
            forward.config() == self.config(),
            forward.notice() == self.notice(),
            forward.results() == self.results().push(result_view(result)),
    {
        proof {
            use_type_invariant(&self);
        }
        let channel = channel_at(self.position);
        let Forward { config, notice, position, errors, results } = self;
        let ghost before = results@;
        let ghost after = before.push(result_view(result));
        assert(after.drop_last() =~= before);
        let mut errors = errors;
        if let Err(reason) = result {
            let mut text = channel.label().to_owned();
            text.append(": ");
            text.append(reason.as_str());
            let ghost old_errors = errors@;
            errors.push(text);
            assert(views(errors@) =~= views(old_errors).push(text@));
        }
        assert(views(errors@) == failure_reports(after));
        Forward { config, notice, position: position + 1, errors, results: Ghost(after) }
    }

    /// The outcome of forwarding to the channels that were served.
    pub fn finish(self) -> (result: Result<(), String>)
        ensures
            (match result {
                Ok(()) => Ok(()),
                Err(text) => Err(text@),
            }) == forward_outcome(self.results()),
    {
        proof {
            use_type_invariant(&self);
        }
        if self.errors.len() == 0 {
            Ok(())
        } else {
            Err(join(&self.errors, "; "))
        }
    }
}

/// An access token of WeCom, or how to get it.
pub enum WecomToken {
    /// The token is at hand.
    Cached(String),
    /// The request for a token is to be sent.
    Missing(Request),
}

/// An access token of WeCom, or how to get it.
#[verifier::ext_equal]
pub enum WecomTokenView {
    Cached(Seq<char>),
    Missing(RequestView),
}

impl View for WecomToken {
    type V = WecomTokenView;

    open spec fn view(&self) -> WecomTokenView {
        match *self {
            WecomToken::Cached(token) => WecomTokenView::Cached(token@),
            WecomToken::Missing(request) => WecomTokenView::Missing(request@),
        }
    }
}

/// How a token is got at a time: from those that are kept, or by a request.
pub open spec fn token_source(
    tokens: Map<TokenKey, CachedToken>,
    key: TokenKey,
    now: Span,
) -> WecomTokenView {
    match fresh_token(tokens, key, now) {
        Some(token) => WecomTokenView::Cached(token),
        None => WecomTokenView::Missing(wecom_token_request(key.0, key.1)),
    }
}

/// The tokens that are kept once a reply granted one, or did not.
pub open spec fn tokens_after_grant(
    tokens: Map<TokenKey, CachedToken>,
    key: TokenKey,
    grant: Result<(Seq<char>, Option<u64>), Seq<char>>,
    now: Span,
) -> Map<TokenKey, CachedToken> {
    match grant {
        Ok((token, expires_in)) => tokens.insert(
            key,
            CachedToken {
                token,
                refresh_at: now.total_nanos() + refresh_after_secs(expires_in) * 1_000_000_000,
            },
        ),
        Err(_) => tokens,
    }
}

/// What follows an answer.
pub open spec fn next_step(pending: PendingView, reply: Reply) -> StepView {
    match pending {
        PendingView::Message { label, failure } => StepView::Done(
            message_outcome(label, failure, reply),
        ),
        PendingView::Wecom(message) => wecom_next_step(
            message,
            reply_refuses_token(reply),
            wecom_outcome(reply),
        ),
    }
}

/// The tokens that are kept once an answer came.
pub open spec fn tokens_after_reply(
    tokens: Map<TokenKey, CachedToken>,
    pending: PendingView,
    reply: Reply,
) -> Map<TokenKey, CachedToken> {
    match pending {
        PendingView::Message { .. } => tokens,
        PendingView::Wecom(message) => tokens_after_post(
            tokens,
            message,
            reply_refuses_token(reply),
        ),
    }
}

/// Sends notifications to the configured channels.
pub struct NotificationSender {
    wecom_token_cache: WecomTokenCache,
}

impl NotificationSender {
    /// The access tokens of WeCom that are kept.
    pub closed spec fn tokens(self) -> Map<TokenKey, CachedToken> {
        self.wecom_token_cache@
    }

    /// A sender that keeps no tokens yet.
    pub fn new() -> (sender: NotificationSender)
        ensures
            sender.tokens() == Map::<TokenKey, CachedToken>::empty(),
    {
        NotificationSender { wecom_token_cache: WecomTokenCache::new() }
    }

    /// Forwards a text message to the channels.
    pub fn forward_sms<'a>(&self, config: &'a NotificationConfig, message: &'a SmsMessage) -> (forward:
        Forward<'a>)
        requires
            config.is_signable(),
        ensures
            forward.config() == *config,
            forward.notice() == Notice::Sms(message),
            forward.results().len() == 0,
    {
        Forward::new(config, Notice::Sms(message))
    }

    /// Forwards a call to the channels.
    pub fn forward_call<'a>(&self, config: &'a NotificationConfig, call: &'a CallRecord) -> (forward:
        Forward<'a>)
        requires
            config.is_signable(),
        ensures
            forward.config() == *config,
            forward.notice() == Notice::Call(call),
            forward.results().len() == 0,
    {
        Forward::new(config, Notice::Call(call))
    }

    /// Forwards a dynamic DNS event to the channels.
    pub fn forward_ddns_event<'a>(
        &self,
        config: &'a NotificationConfig,
        event: &'a DdnsEvent,
    ) -> (forward: Forward<'a>)
        requires
            config.is_signable(),
        ensures
            forward.config() == *config,
            forward.notice() == Notice::Ddns(event),
            forward.results().len() == 0,
    {
        Forward::new(config, Notice::Ddns(event))
    }

    /// Tests a channel with a text message made up for it, whatever its switches say.
    pub fn test_channel(&self, channel: NotificationChannel, config: &NotificationConfig) -> (step:
        Step)
        requires
            config.is_signable(),
        ensures
            exists|message: SmsMessage, now: Option<Span>|
                #![trigger is_test_message(message), is_reading(now)]
                is_test_message(message) && is_reading(now) && message.timestamp@ == beijing_time(
                    now,
                ) && is_sms_step(channel, *config, message, true, step@),
    {
        let message = test_message(beijing_now_string());
        send_sms_to_channel(channel, config, &message, true)
    }

    /// Decides what follows the answer to a request.
    pub fn resume(&mut self, pending: Pending, reply: Reply) -> (step: Step)
        ensures
            step@ == next_step(pending@, reply),
            final(self).tokens() == tokens_after_reply(old(self).tokens(), pending@, reply),
    {
        match pending {
            Pending::Message { label, failure } => Step::Done(
                conclude_message(label.as_str(), failure.as_str(), reply),
            ),
            Pending::Wecom(message) => post_wecom_app_message(
                &mut self.wecom_token_cache,
                message,
                reply,
            ),
        }
    }

    /// The access token of WeCom for a corporation and secret, or the request for it.
    pub fn fetch_wecom_access_token(&self, corp_id: &str, secret: &str, now: Span) -> (token:
        WecomToken)
        ensures
            token@ == token_source(self.tokens(), (corp_id@, secret@), now),
    {
        match self.wecom_token_cache.get(corp_id, secret, now) {
            Some(token) => WecomToken::Cached(token),
            None => WecomToken::Missing(request_wecom_access_token(corp_id, secret)),
        }
    }

    /// Takes the access token of WeCom from the reply to the request for it, and keeps it.
    pub fn keep_wecom_access_token(
        &mut self,
        corp_id: &str,
        secret: &str,
        reply: WecomTokenReply,
        now: Span,
    ) -> (token: Result<String, String>)
        ensures
            result_view(token) == (match wecom_grant(reply) {
                Ok((token, _)) => Ok(token),
                Err(reason) => Err(reason),
            }),
            final(self).tokens() == tokens_after_grant(
                old(self).tokens(),
                (corp_id@, secret@),
                wecom_grant(reply),
                now,
            ),
    {
        match read_wecom_access_token(reply) {
            Ok(granted) => {
                let refresh_after_nanos: u128 = refresh_after(granted.expires_in) as u128
                    * 1_000_000_000;
                let refresh_at: u128 = now.as_nanos() + refresh_after_nanos;
                self.wecom_token_cache.insert(
                    corp_id,
                    secret,
                    granted.access_token.as_str(),
                    refresh_at,
                );
                Ok(granted.access_token)
            },
            Err(reason) => Err(reason),
        }
    }

    /// Forgets the access token of WeCom for a corporation and secret.
    pub fn invalidate_wecom_access_token(&mut self, corp_id: &str, secret: &str)
        ensures
            final(self).tokens() == old(self).tokens().remove((corp_id@, secret@)),
    {
        self.wecom_token_cache.remove(corp_id, secret);
    }
}

} // verus!
