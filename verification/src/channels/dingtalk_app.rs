//! Robots of DingTalk corporations.
use crate::config::{
    forwards_calls, forwards_ddns, forwards_sms, should_send_call, should_send_ddns,
    should_send_sms, DingtalkAppConfig,
};
use crate::delivery::{
    header_views, json_post, json_request, refuse, refused, skip, skipped, Body, BodyView, Method,
    Pending, PendingView, Request, RequestView, Step, StepView,
};
use crate::json::{
    insert, json_of, json_to_string, new_object, no_entries, object_value, one_text,
    one_text_object, quoted, read_json, text_value, Json,
};
use crate::json_layout::law_one_text_can_be_read_back;
use crate::models::{CallRecord, DdnsEvent, SmsMessage};
use crate::reply::{is_success_number, result_view, status_text, StatusCode};
use crate::templates::{
    call_text, ddns_text, render_call_template, render_ddns_template, render_sms_template, sms_text,
};
use crate::text::{is_blank, trim, trimmed};
use serde_json::Value;
use vstd::prelude::*;

verus! {

/// A text as the parameter of a message: an object in JSON.
pub open spec fn message_parameter(text: Seq<char>) -> Seq<char> {
    seq!['{'] + quoted("content"@) + seq![':'] + quoted(text) + seq!['}']
}

/// The parameter of a message is read as an object with the text of the message.
pub proof fn law_message_parameter_reads_back(text: Seq<char>)
    ensures
        read_json(message_parameter(text)) == Some(one_text("content"@, text)),
{
    law_one_text_can_be_read_back("content"@, text);
}

/// The payload of a message with a parameter.
pub open spec fn dingtalk_app_payload(config: DingtalkAppConfig, parameter: Seq<char>) -> Map<
    Seq<char>,
    Json,
> {
    no_entries().insert(
        "robotCode"@,
        Json::Text(
            if is_blank(config.robot_code@) {
                trimmed(config.app_key@)
            } else {
                trimmed(config.robot_code@)
            },
        ),
    ).insert("openConversationId"@, Json::Text(trimmed(config.open_conversation_id@))).insert(
        "msgKey"@,
        Json::Text(
            if is_blank(config.msg_key@) {
                "sampleText"@
            } else {
                trimmed(config.msg_key@)
            },
        ),
    ).insert("msgParam"@, Json::Text(parameter))
}

/// The request for an access token.
pub open spec fn dingtalk_token_request(app_key: Seq<char>, app_secret: Seq<char>) -> RequestView {
    json_post(
        "https://api.dingtalk.com/v1.0/oauth2/accessToken"@,
        Json::Object(
            no_entries().insert("appKey"@, Json::Text(app_key)).insert(
                "appSecret"@,
                Json::Text(app_secret),
            ),
        ),
    )
}

/// The request for an access token.
pub fn fetch_dingtalk_access_token(app_key: &str, app_secret: &str) -> (request: Request)
    ensures
        request@ == dingtalk_token_request(app_key@, app_secret@),
{
    let mut payload = new_object();
    insert(&mut payload, "appKey", text_value(app_key));
    insert(&mut payload, "appSecret", text_value(app_secret));
    json_request(
        "https://api.dingtalk.com/v1.0/oauth2/accessToken".to_owned(),
        object_value(payload),
    )
}

/// The step that sends a text through the robot: an access token comes first. It takes a
/// key, a secret, and a conversation.
pub open spec fn dingtalk_app_text_step(config: DingtalkAppConfig, text: Seq<char>) -> StepView {
    if is_blank(config.app_key@) || is_blank(config.app_secret@) || is_blank(
        config.open_conversation_id@,
    ) {
        refused("钉钉 AppKey、AppSecret 或 OpenConversationId 未配置"@)
    } else {
        StepView::DingtalkToken(
            dingtalk_token_request(trimmed(config.app_key@), trimmed(config.app_secret@)),
            Json::Object(dingtalk_app_payload(config, message_parameter(text))),
        )
    }
}

/// Sends a text through the robot.
pub fn send_dingtalk_app_text(config: &DingtalkAppConfig, text: &str) -> (step: Step)
    ensures
        step@ == dingtalk_app_text_step(*config, text@),
{
    let app_key = trim(config.app_key.as_str());
    let app_secret = trim(config.app_secret.as_str());
    let conversation = trim(config.open_conversation_id.as_str());
    if app_key.is_empty() || app_secret.is_empty() || conversation.is_empty() {
        return refuse("钉钉 AppKey、AppSecret 或 OpenConversationId 未配置");
    }
    let robot_code = trim(config.robot_code.as_str());
    let robot_code = if robot_code.is_empty() {
        app_key
    } else {
        robot_code
    };
    let msg_key = trim(config.msg_key.as_str());
    let msg_key = if msg_key.is_empty() {
        "sampleText"
    } else {
        msg_key
    };
    let parameter = json_to_string(&one_text_object("content", text));
    let mut payload = new_object();
    insert(&mut payload, "robotCode", text_value(robot_code));
    insert(&mut payload, "openConversationId", text_value(conversation));
    insert(&mut payload, "msgKey", text_value(msg_key));
    insert(&mut payload, "msgParam", text_value(parameter.as_str()));
    Step::DingtalkToken(
        fetch_dingtalk_access_token(app_key, app_secret),
        object_value(payload),
    )
}

/// The fields of DingTalk's answer to a request for an access token.
pub struct DingtalkTokenAnswer {
    pub access_token: String,
    pub code: String,
    pub message: String,
}

/// What came of a request for an access token of DingTalk. The fields, or why the body has
/// none, come with an answer.
pub enum DingtalkTokenReply {
    Failed(String),
    Answered(StatusCode, String, Result<DingtalkTokenAnswer, String>),
}

/// The token that a reply grants, or why it grants none.
pub open spec fn dingtalk_grant(reply: DingtalkTokenReply) -> Result<Seq<char>, Seq<char>> {
    match reply {
        DingtalkTokenReply::Failed(reason) => Err(
            "Failed to get DingTalk access token: "@ + reason@,
        ),
        DingtalkTokenReply::Answered(status, body, fields) => {
            if !is_success_number(status.number()) {
                Err(
                    "DingTalk token request failed ("@ + status_text(status.number()) + "): "@
                        + body@,
                )
            } else {
                match fields {
                    Err(reason) => Err("Failed to parse DingTalk token response: "@ + reason@),
                    Ok(answer) => {
                        if answer.access_token@.len() > 0 {
                            Ok(answer.access_token@)
                        } else {
                            Err(
                                "DingTalk token response did not include accessToken: "@
                                    + answer.code@ + " "@ + answer.message@,
                            )
                        }
                    },
                }
            }
        },
    }
}

/// Reads the granted token from a reply.
pub fn read_dingtalk_access_token(reply: DingtalkTokenReply) -> (grant: Result<String, String>)
    ensures
        result_view(grant) == dingtalk_grant(reply),
{
    match reply {
        DingtalkTokenReply::Failed(reason) => {
            let mut text = "Failed to get DingTalk access token: ".to_owned();
            text.append(reason.as_str());
            Err(text)
        },
        DingtalkTokenReply::Answered(status, body, fields) => {
            if !status.is_success() {
                let mut text = "DingTalk token request failed (".to_owned();
                text.append(status.text().as_str());
                text.append("): ");
                text.append(body.as_str());
                return Err(text);
            }
            match fields {
                Err(reason) => {
                    let mut text = "Failed to parse DingTalk token response: ".to_owned();
                    text.append(reason.as_str());
                    Err(text)
                },
                Ok(answer) => {
                    if !answer.access_token.as_str().is_empty() {
                        return Ok(answer.access_token);
                    }
                    let mut text =
                        "DingTalk token response did not include accessToken: ".to_owned();
                    text.append(answer.code.as_str());
                    text.append(" ");
                    text.append(answer.message.as_str());
                    Err(text)
                },
            }
        },
    }
}

/// The step that posts a payload with the token that was fetched for it.
pub open spec fn dingtalk_post_step(
    payload: Json,
    token: Result<Seq<char>, Seq<char>>,
) -> StepView {
    match token {
        Err(reason) => refused(reason),
        Ok(token) => StepView::Send(
            RequestView {
                method: Method::Post,
                url: "https://api.dingtalk.com/v1.0/robot/groupMessages/send"@,
                headers: seq![("x-acs-dingtalk-access-token"@, token)],
                body: BodyView::Json(payload),
            },
            PendingView::Message {
                label: "钉钉企业内机器人"@,
                failure: "Failed to send DingTalk app robot message: "@,
            },
        ),
    }
}

/// Posts a payload with the token that was fetched for it.
pub fn post_dingtalk_app_message(payload: Value, reply: DingtalkTokenReply) -> (step: Step)
    ensures
        step@ == dingtalk_post_step(json_of(payload), dingtalk_grant(reply)),
{
    match read_dingtalk_access_token(reply) {
        Err(reason) => Step::Done(Err(reason)),
        Ok(token) => {
            let mut headers: Vec<(String, String)> = Vec::new();
            headers.push(("x-acs-dingtalk-access-token".to_owned(), token));
            assert(header_views(headers@) =~= seq![("x-acs-dingtalk-access-token"@, token@)]);
            Step::Send(
                Request {
                    method: Method::Post,
                    url: "https://api.dingtalk.com/v1.0/robot/groupMessages/send".to_owned(),
                    headers,
                    body: Body::Json(payload),
                },
                Pending::Message {
                    label: "钉钉企业内机器人".to_owned(),
                    failure: "Failed to send DingTalk app robot message: ".to_owned(),
                },
            )
        },
    }
}

/// What a text message needs on the robot of a DingTalk corporation.
pub open spec fn dingtalk_app_sms_step(
    config: DingtalkAppConfig,
    message: SmsMessage,
    force: bool,
) -> StepView {
    if forwards_sms(config.common, force) {
        dingtalk_app_text_step(config, sms_text(config.common.sms_template@, message, false))
    } else {
        skipped("钉钉企业内机器人 skipped"@)
    }
}

/// Sends a text message to the robot of a DingTalk corporation.
pub fn send_dingtalk_app_sms(
    config: &DingtalkAppConfig,
    message: &SmsMessage,
    force: bool,
) -> (step: Step)
    ensures
        step@ == dingtalk_app_sms_step(*config, *message, force),
{
    if !should_send_sms(&config.common, force) {
        return skip("钉钉企业内机器人 skipped");
    }
    let text = render_sms_template(config.common.sms_template.as_str(), message, false);
    send_dingtalk_app_text(config, text.as_str())
}

/// What a call needs on the robot of a DingTalk corporation.
pub open spec fn dingtalk_app_call_step(
    config: DingtalkAppConfig,
    call: CallRecord,
    force: bool,
) -> StepView {
    if forwards_calls(config.common, force) {
        dingtalk_app_text_step(config, call_text(config.common.call_template@, call, false))
    } else {
        skipped("钉钉企业内机器人 skipped"@)
    }
}

/// Sends a call to the robot of a DingTalk corporation.
pub fn send_dingtalk_app_call(
    config: &DingtalkAppConfig,
    call: &CallRecord,
    force: bool,
) -> (step: Step)
    ensures
        step@ == dingtalk_app_call_step(*config, *call, force),
{
    if !should_send_call(&config.common, force) {
        return skip("钉钉企业内机器人 skipped");
    }
    let text = render_call_template(config.common.call_template.as_str(), call, false);
    send_dingtalk_app_text(config, text.as_str())
}

/// What a dynamic DNS event needs on the robot of a DingTalk corporation.
pub open spec fn dingtalk_app_ddns_step(
    config: DingtalkAppConfig,
    event: DdnsEvent,
) -> StepView {
    if forwards_ddns(config.common) {
        dingtalk_app_text_step(config, ddns_text(config.common.ddns_template@, event, false))
    } else {
        skipped("钉钉企业内部机器人 skipped"@)
    }
}

/// Sends a dynamic DNS event to the robot of a DingTalk corporation.
pub fn send_dingtalk_app_ddns(config: &DingtalkAppConfig, event: &DdnsEvent) -> (step: Step)
    ensures
        step@ == dingtalk_app_ddns_step(*config, *event),
{
    if !should_send_ddns(&config.common) {
        return skip("钉钉企业内部机器人 skipped");
    }
    let text = render_ddns_template(config.common.ddns_template.as_str(), event, false);
    send_dingtalk_app_text(config, text.as_str())
}

} // verus!
