//! The channels: what each of them needs to deliver a notification.
pub mod bark;
pub mod dingtalk_app;
pub mod dingtalk_robot;
pub mod feishu_robot;
pub mod pushplus;
pub mod robot;
pub mod telegram;
pub mod webhook;
pub mod wecom_app;
pub mod wecom_robot;
