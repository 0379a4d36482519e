//! The configured channels, and which of them a notification goes to.
use crate::signing::{can_sign, is_signable};
use vstd::prelude::*;

verus! {

/// A way to deliver notifications.
#[derive(Clone, Copy, Debug, PartialEq, Eq, Structural)]
pub enum NotificationChannel {
    Webhook,
    Bark,
    PushPlus,
    WecomApp,
    WecomRobot,
    DingtalkRobot,
    DingtalkApp,
    FeishuRobot,
    Telegram,
}

/// What the message channels share: switches and templates.
#[derive(Debug)]
pub struct MessageChannelConfig {
    pub enabled: bool,
    pub forward_sms: bool,
    pub forward_calls: bool,
    pub forward_ddns: bool,
    pub sms_template: String,
    pub call_template: String,
    pub ddns_template: String,
}

/// A webhook of the user's own.
#[derive(Debug)]
pub struct WebhookConfig {
    pub enabled: bool,
    pub forward_sms: bool,
    pub forward_calls: bool,
    pub forward_ddns: bool,
    pub url: String,
    /// Names and values of extra headers.
    pub headers: Vec<(String, String)>,
    pub secret: String,
    pub sms_template: String,
    pub call_template: String,
    pub ddns_template: String,
}

/// The Bark app.
#[derive(Debug)]
pub struct BarkConfig {
    pub common: MessageChannelConfig,
    pub server_url: String,
    pub device_key: String,
    pub title_template: String,
    pub group: String,
    pub sound: String,
    pub level: String,
    pub icon: String,
    pub click_url: String,
    pub auto_copy: bool,
    pub copy: String,
    pub save_history: bool,
}

/// The PushPlus service.
#[derive(Debug)]
pub struct PushPlusConfig {
    pub common: MessageChannelConfig,
    pub title_template: String,
    pub token: String,
    pub topic: String,
    pub template: String,
    pub channel: String,
    pub option: String,
    pub callback_url: String,
}

/// An application inside a WeCom corporation.
#[derive(Debug)]
pub struct WecomAppConfig {
    pub common: MessageChannelConfig,
    pub corp_id: String,
    pub agent_id: String,
    pub secret: String,
    pub to_user: String,
    pub to_party: String,
    pub to_tag: String,
    pub safe: bool,
}

/// A robot in a WeCom group.
#[derive(Debug)]
pub struct WecomRobotConfig {
    pub common: MessageChannelConfig,
    pub webhook_url: String,
    pub key: String,
}

/// A custom robot in a DingTalk group.
#[derive(Debug)]
pub struct DingtalkRobotConfig {
    pub common: MessageChannelConfig,
    pub webhook_url: String,
    pub access_token: String,
    pub secret: String,
    /// Comma-separated phone numbers to mention.
    pub at_mobiles: String,
    pub at_all: bool,
}

/// A robot of a DingTalk corporation.
#[derive(Debug)]
pub struct DingtalkAppConfig {
    pub common: MessageChannelConfig,
    pub app_key: String,
    pub app_secret: String,
    pub open_conversation_id: String,
    pub robot_code: String,
    pub msg_key: String,
}

/// A robot in a Feishu group.
#[derive(Debug)]
pub struct FeishuRobotConfig {
    pub common: MessageChannelConfig,
    pub webhook_url: String,
    pub token: String,
    pub secret: String,
}

/// A Telegram bot.
#[derive(Debug)]
pub struct TelegramConfig {
    pub common: MessageChannelConfig,
    pub bot_token: String,
    pub chat_id: String,
    pub disable_web_page_preview: bool,
    pub parse_mode: String,
}

/// The configuration of every channel.
#[derive(Debug)]
pub struct NotificationConfig {
    pub webhook: WebhookConfig,
    pub bark: BarkConfig,
    pub pushplus: PushPlusConfig,
    pub wecom_app: WecomAppConfig,
    pub wecom_robot: WecomRobotConfig,
    pub dingtalk_robot: DingtalkRobotConfig,
    pub dingtalk_app: DingtalkAppConfig,
    pub feishu_robot: FeishuRobotConfig,
    pub telegram: TelegramConfig,
}

impl NotificationConfig {
    /// Whether the secrets that sign messages are short enough for it.
    pub open spec fn is_signable(self) -> bool {
        is_signable(self.dingtalk_robot.secret@) && is_signable(self.feishu_robot.secret@)
    }

    /// Whether the secrets that sign messages are short enough for it.
    pub fn can_sign(&self) -> (result: bool)
        ensures
            result == self.is_signable(),
    {
        can_sign(self.dingtalk_robot.secret.as_str()) && can_sign(self.feishu_robot.secret.as_str())
    }
}

/// The name of a channel in reports.
pub open spec fn channel_label(channel: NotificationChannel) -> Seq<char> {
    match channel {
        NotificationChannel::Webhook => "Webhook"@,
        NotificationChannel::Bark => "Bark"@,
        NotificationChannel::PushPlus => "PushPlus"@,
        NotificationChannel::WecomApp => "企业微信应用消息"@,
        NotificationChannel::WecomRobot => "企业微信群机器人"@,
        NotificationChannel::DingtalkRobot => "钉钉群自定义机器人"@,
        NotificationChannel::DingtalkApp => "钉钉企业内机器人"@,
        NotificationChannel::FeishuRobot => "飞书机器人"@,
        NotificationChannel::Telegram => "Telegram机器人"@,
    }
}

impl NotificationChannel {
    /// The name of the channel in reports.
    pub fn label(self) -> (label: &'static str)
        ensures
            label@ == channel_label(self),
    {
        match self {
            NotificationChannel::Webhook => "Webhook",
            NotificationChannel::Bark => "Bark",
            NotificationChannel::PushPlus => "PushPlus",
            NotificationChannel::WecomApp => "企业微信应用消息",
            NotificationChannel::WecomRobot => "企业微信群机器人",
            NotificationChannel::DingtalkRobot => "钉钉群自定义机器人",
            NotificationChannel::DingtalkApp => "钉钉企业内机器人",
            NotificationChannel::FeishuRobot => "飞书机器人",
            NotificationChannel::Telegram => "Telegram机器人",
        }
    }
}

/// The channels in the order in which they are served.
pub open spec fn channel_order() -> Seq<NotificationChannel> {
    seq![
        NotificationChannel::Webhook,
        NotificationChannel::Bark,
        NotificationChannel::PushPlus,
        NotificationChannel::WecomApp,
        NotificationChannel::WecomRobot,
        NotificationChannel::DingtalkRobot,
        NotificationChannel::DingtalkApp,
        NotificationChannel::FeishuRobot,
        NotificationChannel::Telegram,
    ]
}

/// All channels in the order in which they are served.
pub fn all_channels() -> (channels: [NotificationChannel; 9])
    ensures
        channels@ == channel_order(),
{
    let channels = [
        NotificationChannel::Webhook,
        NotificationChannel::Bark,
        NotificationChannel::PushPlus,
        NotificationChannel::WecomApp,
        NotificationChannel::WecomRobot,
        NotificationChannel::DingtalkRobot,
        NotificationChannel::DingtalkApp,
        NotificationChannel::FeishuRobot,
        NotificationChannel::Telegram,
    ];
    assert(channels@ =~= channel_order());
    channels
}

/// Every channel is served, and none twice.
pub proof fn law_every_channel_is_served_once(channel: NotificationChannel)
    ensures
        channel_order().contains(channel),
        channel_order().no_duplicates(),
{
    let order = channel_order();
    match channel {
        NotificationChannel::Webhook => assert(order[0] == channel),
        NotificationChannel::Bark => assert(order[1] == channel),
        NotificationChannel::PushPlus => assert(order[2] == channel),
        NotificationChannel::WecomApp => assert(order[3] == channel),
        NotificationChannel::WecomRobot => assert(order[4] == channel),
        NotificationChannel::DingtalkRobot => assert(order[5] == channel),
        NotificationChannel::DingtalkApp => assert(order[6] == channel),
        NotificationChannel::FeishuRobot => assert(order[7] == channel),
        NotificationChannel::Telegram => assert(order[8] == channel),
    }
}

/// Whether a message channel forwards text messages.
pub open spec fn forwards_sms(config: MessageChannelConfig, force: bool) -> bool {
    force || (config.enabled && config.forward_sms)
}

/// Whether a message channel forwards calls.
pub open spec fn forwards_calls(config: MessageChannelConfig, force: bool) -> bool {
    force || (config.enabled && config.forward_calls)
}

/// Whether a message channel forwards dynamic DNS events.
pub open spec fn forwards_ddns(config: MessageChannelConfig) -> bool {
    config.enabled && config.forward_ddns
}

/// Whether a text message is to be sent; `force` overrides the switches.
pub fn should_send_sms(config: &MessageChannelConfig, force: bool) -> (send: bool)
    ensures
        send == forwards_sms(*config, force),
{
    force || (config.enabled && config.forward_sms)
}

/// Whether a call is to be sent; `force` overrides the switches.
pub fn should_send_call(config: &MessageChannelConfig, force: bool) -> (send: bool)
    ensures
        send == forwards_calls(*config, force),
{
    force || (config.enabled && config.forward_calls)
}

/// Whether a dynamic DNS event is to be sent.
pub fn should_send_ddns(config: &MessageChannelConfig) -> (send: bool)
    ensures
        send == forwards_ddns(*config),
{
    config.enabled && config.forward_ddns
}

} // verus!
