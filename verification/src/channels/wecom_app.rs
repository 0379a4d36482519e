//! Applications inside WeCom corporations.
use crate::config::{
    forwards_calls, forwards_ddns, forwards_sms, should_send_call, should_send_ddns,
    should_send_sms, WecomAppConfig,
};
use crate::delivery::{
    json_post, json_request, message_outcome, refuse, refused, skip, skipped, Body, BodyView, Method,
    Pending, PendingView, Reply, Request, RequestView, Step, StepView, WecomMessage,
    WecomMessageView,
};
use crate::encoding::{encode_query_value, percent_encoded};
use crate::json::{
    copy, insert, int_value, new_object, no_entries, object_value, one_text, one_text_object,
    read_json, text_value, Json,
};
use crate::models::{CallRecord, DdnsEvent, SmsMessage};
use crate::reply::{
    is_success_number, is_wecom_access_token_error, outcome, refuses_token, response_result,
    result_view, status_text, StatusCode,
};
use crate::templates::{
    call_text, ddns_text, render_call_template, render_ddns_template, render_sms_template, sms_text,
};
use crate::text::{integer_text, integer_to_text, is_blank, parse_i64, trim, trimmed, written_i64};
use crate::token_cache::{CachedToken, TokenKey, WecomTokenCache};
use vstd::prelude::*;

verus! {

/// The name of the channel in reports.
pub const WECOM_APP_LABEL: &'static str = "企业微信应用消息";

/// The payload of a text.
pub open spec fn wecom_app_payload(config: WecomAppConfig, agent_id: i64, text: Seq<char>) -> Map<
    Seq<char>,
    Json,
> {
    no_entries().insert(
        "touser"@,
        Json::Text(
            if is_blank(config.to_user@) {
                "@all"@
            } else {
                trimmed(config.to_user@)
            },
        ),
    ).insert("toparty"@, Json::Text(trimmed(config.to_party@))).insert(
        "totag"@,
        Json::Text(trimmed(config.to_tag@)),
    ).insert("msgtype"@, Json::Text("text"@)).insert("agentid"@, Json::Int(agent_id as int)).insert(
        "text"@,
        one_text("content"@, text),
    ).insert(
        "safe"@,
        Json::Int(
            if config.safe {
                1
            } else {
                0
            },
        ),
    )
}

/// The step that sends a text through the application: an access token comes first. It
/// takes a corporation, a secret, and the number of an agent.
pub open spec fn wecom_app_text_step(config: WecomAppConfig, text: Seq<char>) -> StepView {
    if is_blank(config.corp_id@) || is_blank(config.secret@) || is_blank(config.agent_id@) {
        refused("企业微信 CorpID、AgentID 或 Secret 未配置"@)
    } else {
        match written_i64(trimmed(config.agent_id@)) {
            None => refused("企业微信 AgentID 必须为数字"@),
            Some(agent_id) => StepView::WecomToken(
                WecomMessageView {
                    corp_id: trimmed(config.corp_id@),
                    secret: trimmed(config.secret@),
                    payload: Json::Object(wecom_app_payload(config, agent_id, text)),
                    retried: false,
                },
            ),
        }
    }
}

/// Sends a text through the application.
pub fn send_wecom_app_text(config: &WecomAppConfig, text: &str) -> (step: Step)
    ensures
        step@ == wecom_app_text_step(*config, text@),
{
    let corp_id = trim(config.corp_id.as_str());
    let secret = trim(config.secret.as_str());
    let agent_id = trim(config.agent_id.as_str());
    if corp_id.is_empty() || secret.is_empty() || agent_id.is_empty() {
        return refuse("企业微信 CorpID、AgentID 或 Secret 未配置");
    }
    let agent_id: i64 = match parse_i64(agent_id) {
        Some(agent_id) => agent_id,
        None => return refuse("企业微信 AgentID 必须为数字"),
    };
    let to_user = trim(config.to_user.as_str());
    let to_user = if to_user.is_empty() {
        "@all"
    } else {
        to_user
    };
    let safe: i64 = if config.safe { 1 } else { 0 };
    let mut payload = new_object();
    insert(&mut payload, "touser", text_value(to_user));
    insert(&mut payload, "toparty", text_value(trim(config.to_party.as_str())));
    insert(&mut payload, "totag", text_value(trim(config.to_tag.as_str())));
    insert(&mut payload, "msgtype", text_value("text"));
    insert(&mut payload, "agentid", int_value(agent_id));
    insert(&mut payload, "text", one_text_object("content", text));
    insert(&mut payload, "safe", int_value(safe));
    Step::WecomToken(
        WecomMessage {
            corp_id: corp_id.to_owned(),
            secret: secret.to_owned(),
            payload: object_value(payload),
            retried: false,
        },
    )
}

/// The request for an access token.
pub open spec fn wecom_token_request(corp_id: Seq<char>, secret: Seq<char>) -> RequestView {
    RequestView {
        method: Method::Get,
        url: "https://qyapi.weixin.qq.com/cgi-bin/gettoken?corpid="@ + percent_encoded(corp_id)
            + "&corpsecret="@ + percent_encoded(secret),
        headers: seq![],
        body: BodyView::Empty,
    }
}

/// The request for an access token.
pub fn request_wecom_access_token(corp_id: &str, secret: &str) -> (request: Request)
    ensures
        request@ == wecom_token_request(corp_id@, secret@),
{
    let mut url = "https://qyapi.weixin.qq.com/cgi-bin/gettoken?corpid=".to_owned();
    url.append(encode_query_value(corp_id).as_str());
    url.append("&corpsecret=");
    url.append(encode_query_value(secret).as_str());
    let request = Request { method: Method::Get, url, headers: Vec::new(), body: Body::Empty };
    assert(request@.headers =~= seq![]);
    request
}

/// An access token that WeCom granted.
pub struct WecomTokenResponse {
    pub access_token: String,
    pub expires_in: Option<u64>,
}

/// The fields of WeCom's answer to a request for an access token.
pub struct WecomTokenAnswer {
    pub errcode: i64,
    pub errmsg: String,
    pub access_token: String,
    pub expires_in: Option<u64>,
}

/// What came of a request for an access token of WeCom. The fields, or why the body has
/// none, come with an answer.
pub enum WecomTokenReply {
    Failed(String),
    Answered(StatusCode, String, Result<WecomTokenAnswer, String>),
}

/// The view of a granted token, or why there is none.
pub open spec fn grant_view(grant: Result<WecomTokenResponse, String>) -> Result<
    (Seq<char>, Option<u64>),
    Seq<char>,
> {
    match grant {
        Ok(response) => Ok((response.access_token@, response.expires_in)),
        Err(reason) => Err(reason@),
    }
}

/// The token that a reply grants, or why it grants none.
pub open spec fn wecom_grant(reply: WecomTokenReply) -> Result<
    (Seq<char>, Option<u64>),
    Seq<char>,
> {
    match reply {
        WecomTokenReply::Failed(reason) => Err("Failed to get WeCom access token: "@ + reason@),
        WecomTokenReply::Answered(status, body, fields) => {
            if !is_success_number(status.number()) {
                Err(
                    "WeCom token request failed ("@ + status_text(status.number()) + "): "@ + body@,
                )
            } else {
                match fields {
                    Err(reason) => Err("Failed to parse WeCom token response: "@ + reason@),
                    Ok(answer) => {
                        if answer.errcode != 0 {
                            Err(
                                "WeCom token error "@ + integer_text(answer.errcode as int) + ": "@
                                    + answer.errmsg@,
                            )
                        } else if answer.access_token@.len() == 0 {
                            Err("WeCom token response did not include access_token"@)
                        } else {
                            Ok((answer.access_token@, answer.expires_in))
                        }
                    },
                }
            }
        },
    }
}

/// Reads the granted token from a reply.
pub fn read_wecom_access_token(reply: WecomTokenReply) -> (grant: Result<
    WecomTokenResponse,
    String,
>)
    ensures
        grant_view(grant) == wecom_grant(reply),
{
    match reply {
        WecomTokenReply::Failed(reason) => {
            let mut text = "Failed to get WeCom access token: ".to_owned();
            text.append(reason.as_str());
            Err(text)
        },
        WecomTokenReply::Answered(status, body, fields) => {
            if !status.is_success() {
                let mut text = "WeCom token request failed (".to_owned();
                text.append(status.text().as_str());
                text.append("): ");
                text.append(body.as_str());
                return Err(text);
            }
            match fields {
                Err(reason) => {
                    let mut text = "Failed to parse WeCom token response: ".to_owned();
                    text.append(reason.as_str());
                    Err(text)
                },
                Ok(answer) => {
                    if answer.errcode != 0 {
                        let mut text = "WeCom token error ".to_owned();
                        text.append(integer_to_text(answer.errcode).as_str());
                        text.append(": ");
                        text.append(answer.errmsg.as_str());
                        return Err(text);
                    }
                    if answer.access_token.as_str().is_empty() {
                        return Err("WeCom token response did not include access_token".to_owned());
                    }
                    Ok(
                        WecomTokenResponse {
                            access_token: answer.access_token,
                            expires_in: answer.expires_in,
                        },
                    )
                },
            }
        },
    }
}

/// The step that posts a message with the token that was fetched for it.
pub open spec fn wecom_post_step(
    message: WecomMessageView,
    token: Result<Seq<char>, Seq<char>>,
) -> StepView {
    match token {
        Err(reason) => refused(reason),
        Ok(token) => StepView::Send(
            json_post(
                "https://qyapi.weixin.qq.com/cgi-bin/message/send?access_token="@ + token,
                message.payload,
            ),
            PendingView::Wecom(message),
        ),
    }
}

/// Posts a message with the token that was fetched for it.
pub fn post_wecom_app_payload(message: WecomMessage, token: Result<String, String>) -> (step: Step)
    ensures
        step@ == wecom_post_step(message@, result_view(token)),
{
    match token {
        Err(reason) => Step::Done(Err(reason)),
        Ok(token) => {
            let mut url =
                "https://qyapi.weixin.qq.com/cgi-bin/message/send?access_token=".to_owned();
            url.append(token.as_str());
            let payload = copy(&message.payload);
            Step::Send(json_request(url, payload), Pending::Wecom(message))
        },
    }
}

/// What follows a posted message, given whether its token was refused and the outcome that
/// the reply means: a first refusal has it sent once more with another token.
pub open spec fn wecom_next_step(
    message: WecomMessageView,
    token_refused: bool,
    outcome: Result<Seq<char>, Seq<char>>,
) -> StepView {
    if token_refused && !message.retried {
        StepView::WecomToken(WecomMessageView { retried: true, ..message })
    } else if token_refused {
        refused(
            match outcome {
                Ok(text) => text,
                Err(text) => text,
            },
        )
    } else {
        StepView::Done(outcome)
    }
}

/// The tokens that are kept once a message was posted: a token that was refused for the
/// first time is forgotten.
pub open spec fn tokens_after_post(
    tokens: Map<TokenKey, CachedToken>,
    message: WecomMessageView,
    token_refused: bool,
) -> Map<TokenKey, CachedToken> {
    if token_refused && !message.retried {
        tokens.remove((message.corp_id, message.secret))
    } else {
        tokens
    }
}

/// Decides what follows a posted message, given whether its token was refused and the
/// outcome that the reply means.
pub fn follow_wecom_post(
    cache: &mut WecomTokenCache,
    message: WecomMessage,
    token_refused: bool,
    outcome: Result<String, String>,
) -> (step: Step)
    ensures
        step@ == wecom_next_step(message@, token_refused, result_view(outcome)),
        final(cache)@ == tokens_after_post(old(cache)@, message@, token_refused),
{
    if token_refused {
        if !message.retried {
            cache.remove(message.corp_id.as_str(), message.secret.as_str());
            return Step::WecomToken(
                WecomMessage {
                    corp_id: message.corp_id,
                    secret: message.secret,
                    payload: message.payload,
                    retried: true,
                },
            );
        }
        return match outcome {
            Ok(text) => Step::Done(Err(text)),
            Err(text) => Step::Done(Err(text)),
        };
    }
    Step::Done(outcome)
}

/// Whether a reply refuses the access token.
pub open spec fn reply_refuses_token(reply: Reply) -> bool {
    match reply {
        Reply::Failed(_) => false,
        Reply::Answered(_, body) => refuses_token(read_json(body@)),
    }
}

/// The outcome that a reply means.
pub open spec fn wecom_outcome(reply: Reply) -> Result<Seq<char>, Seq<char>> {
    message_outcome(
        WECOM_APP_LABEL@,
        "Failed to send 企业微信应用消息 message: "@,
        reply,
    )
}

/// Decides what follows a posted message.
pub fn post_wecom_app_message(cache: &mut WecomTokenCache, message: WecomMessage, reply: Reply) -> (
step: Step)
    ensures
        step@ == wecom_next_step(message@, reply_refuses_token(reply), wecom_outcome(reply)),
        final(cache)@ == tokens_after_post(old(cache)@, message@, reply_refuses_token(reply)),
{
    match reply {
        Reply::Failed(reason) => {
            let mut text = "Failed to send 企业微信应用消息 message: ".to_owned();
            text.append(reason.as_str());
            follow_wecom_post(cache, message, false, Err(text))
        },
        Reply::Answered(status, body) => {
            let token_refused = is_wecom_access_token_error(body.as_str());
            let outcome = response_result(WECOM_APP_LABEL, status, body);
            follow_wecom_post(cache, message, token_refused, outcome)
        },
    }
}

/// What a text message needs on the application of a WeCom corporation.
pub open spec fn wecom_app_sms_step(
    config: WecomAppConfig,
    message: SmsMessage,
    force: bool,
) -> StepView {
    if forwards_sms(config.common, force) {
        wecom_app_text_step(config, sms_text(config.common.sms_template@, message, false))
    } else {
        skipped("企业微信应用消息 skipped"@)
    }
}

/// Sends a text message to the application of a WeCom corporation.
pub fn send_wecom_app_sms(
    config: &WecomAppConfig,
    message: &SmsMessage,
    force: bool,
) -> (step: Step)
    ensures
        step@ == wecom_app_sms_step(*config, *message, force),
{
    if !should_send_sms(&config.common, force) {
        return skip("企业微信应用消息 skipped");
    }
    let text = render_sms_template(config.common.sms_template.as_str(), message, false);
    send_wecom_app_text(config, text.as_str())
}

/// What a call needs on the application of a WeCom corporation.
pub open spec fn wecom_app_call_step(
    config: WecomAppConfig,
    call: CallRecord,
    force: bool,
) -> StepView {
    if forwards_calls(config.common, force) {
        wecom_app_text_step(config, call_text(config.common.call_template@, call, false))
    } else {
        skipped("企业微信应用消息 skipped"@)
    }
}

/// Sends a call to the application of a WeCom corporation.
pub fn send_wecom_app_call(config: &WecomAppConfig, call: &CallRecord, force: bool) -> (step: Step)
    ensures
        step@ == wecom_app_call_step(*config, *call, force),
{
    if !should_send_call(&config.common, force) {
        return skip("企业微信应用消息 skipped");
    }
    let text = render_call_template(config.common.call_template.as_str(), call, false);
    send_wecom_app_text(config, text.as_str())
}

/// What a dynamic DNS event needs on the application of a WeCom corporation.
pub open spec fn wecom_app_ddns_step(
    config: WecomAppConfig,
    event: DdnsEvent,
) -> StepView {
    if forwards_ddns(config.common) {
        wecom_app_text_step(config, ddns_text(config.common.ddns_template@, event, false))
    } else {
        skipped("企业微信应用消息 skipped"@)
    }
}

/// Sends a dynamic DNS event to the application of a WeCom corporation.
pub fn send_wecom_app_ddns(config: &WecomAppConfig, event: &DdnsEvent) -> (step: Step)
    ensures
        step@ == wecom_app_ddns_step(*config, *event),
{
    if !should_send_ddns(&config.common) {
        return skip("企业微信应用消息 skipped");
    }
    let text = render_ddns_template(config.common.ddns_template.as_str(), event, false);
    send_wecom_app_text(config, text.as_str())
}

} // verus!
