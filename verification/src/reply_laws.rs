//! What answers mean, and what follows them.
use crate::channels::dingtalk_app::{
    dingtalk_grant, dingtalk_post_step, DingtalkTokenAnswer, DingtalkTokenReply,
};
use crate::channels::wecom_app::{
    tokens_after_post, wecom_grant, wecom_next_step, wecom_post_step, WecomTokenAnswer,
    WecomTokenReply,
};
use crate::clock::Span;
use crate::delivery::{BodyView, Method, PendingView, Reply, StepView, WecomMessageView};
use crate::encoding::percent_encoded;
use crate::json::{json_field, read_json, Json};
use crate::reply::{
    errcode_of, is_token_errcode, judged, message_field, outcome, refuses_token, status_reason,
    StatusCode,
};
use crate::sender::{
    next_step, token_source, tokens_after_grant, tokens_after_reply, WecomTokenView,
};
use crate::text::integer_text;
use crate::token_cache::{fresh_token, refresh_after_secs, CachedToken, TokenKey};
use vstd::prelude::*;

verus! {

/// Whether an entry of an answer is a 64-bit integer.
pub open spec fn has_number(json: Json, key: Seq<char>) -> bool {
    json_field(json, key) matches Some(Json::Int(n)) && i64::MIN <= n <= i64::MAX
}

/// The integer that an entry of an answer is.
pub open spec fn number_at(json: Json, key: Seq<char>) -> int {
    json_field(json, key)->0->Int_0
}

/// Whether an answer complains of nothing: `ok` is not false, an integer `errcode` or
/// `StatusCode` is zero, and an integer `code` is zero or 200.
pub open spec fn is_content(json: Json) -> bool {
    &&& json_field(json, "ok"@) != Some(Json::Bool(false))
    &&& has_number(json, "errcode"@) ==> number_at(json, "errcode"@) == 0
    &&& has_number(json, "code"@) ==> number_at(json, "code"@) == 0 || number_at(json, "code"@)
        == 200
    &&& has_number(json, "StatusCode"@) ==> number_at(json, "StatusCode"@) == 0
}

/// What a status is called in reports.
pub open spec fn status_words(code: int) -> Seq<char> {
    integer_text(code) + " "@ + status_reason(code)
}

/// A delivery goes well exactly if the status says so, and an answer that is JSON complains of
/// nothing. In particular, it fails for every integer `code` but 0 and 200.
pub proof fn law_delivery_goes_well_iff_nothing_is_wrong(
    label: Seq<char>,
    code: int,
    body: Seq<char>,
    reply: Option<Json>,
)
    ensures
        judged(label, code, body, reply) is Ok <==> 200 <= code < 300 && (reply matches Some(
            json,
        ) ==> is_content(json)),
        judged(label, code, body, reply) matches Ok(text) ==> text == label
            + " test successful (status: "@ + status_words(code) + ")"@,
        outcome(label, code, body) == judged(label, code, body, read_json(body)),
{
}

/// Whether the message of an answer is the text under a key, or under another where the first
/// is missing, or else the whole body.
pub open spec fn is_message_of(
    message: Seq<char>,
    json: Json,
    key: Seq<char>,
    other: Seq<char>,
    body: Seq<char>,
) -> bool {
    match json_field(json, key) {
        Some(Json::Text(text)) => message == text,
        Some(_) => message == body,
        None => match json_field(json, other) {
            Some(Json::Text(text)) => message == text,
            _ => message == body,
        },
    }
}

/// A status that is none of success is reported with the body. With a status of success, the
/// first complaint is reported: a false `ok`, then `errcode`, then `code`, then `StatusCode`.
pub proof fn law_first_complaint_is_reported(
    label: Seq<char>,
    code: int,
    body: Seq<char>,
    json: Json,
)
    ensures
        ({
            let result = judged(label, code, body, Some(json));
            let errcode = number_at(json, "errcode"@);
            let json_code = number_at(json, "code"@);
            let status_code = number_at(json, "StatusCode"@);
            if !(200 <= code < 300) {
                &&& result == Err::<Seq<char>, Seq<char>>(
                    label + " returned HTTP "@ + status_words(code) + ": "@ + body,
                )
                &&& judged(label, code, body, None) == result
            } else if json_field(json, "ok"@) == Some(Json::Bool(false)) {
                result == Err::<Seq<char>, Seq<char>>(label + " returned error: "@ + body)
            } else if has_number(json, "errcode"@) && errcode != 0 {
                exists|message: Seq<char>|
                    #![trigger is_message_of(message, json, "errmsg"@, "err_msg"@, body)]
                    is_message_of(message, json, "errmsg"@, "err_msg"@, body) && result == Err::<
                        Seq<char>,
                        Seq<char>,
                    >(label + " returned errcode "@ + integer_text(errcode) + ": "@ + message)
            } else if has_number(json, "code"@) && json_code != 0 && json_code != 200 {
                exists|message: Seq<char>|
                    #![trigger is_message_of(message, json, "msg"@, "message"@, body)]
                    is_message_of(message, json, "msg"@, "message"@, body) && result == Err::<
                        Seq<char>,
                        Seq<char>,
                    >(label + " returned code "@ + integer_text(json_code) + ": "@ + message)
            } else if has_number(json, "StatusCode"@) && status_code != 0 {
                exists|message: Seq<char>|
                    #![trigger is_message_of(message, json, "StatusMessage"@, "StatusMessage"@, body)]
                    is_message_of(message, json, "StatusMessage"@, "StatusMessage"@, body) && result
                        == Err::<Seq<char>, Seq<char>>(
                        label + " returned StatusCode "@ + integer_text(status_code) + ": "@
                            + message,
                    )
            } else {
                result is Ok
            }
        }),
{
    let errmsg = message_field(json, "errmsg"@, "err_msg"@, body);
    assert(is_message_of(errmsg, json, "errmsg"@, "err_msg"@, body));
    let msg = message_field(json, "msg"@, "message"@, body);
    assert(is_message_of(msg, json, "msg"@, "message"@, body));
    let status = message_field(json, "StatusMessage"@, "StatusMessage"@, body);
    assert(is_message_of(status, json, "StatusMessage"@, "StatusMessage"@, body));
}

/// The error number of an answer is its integer `errcode`, and comes with a message. WeCom
/// refuses a token by two error numbers and by no other.
pub proof fn law_error_number_is_read(reply: Option<Json>, body: Seq<char>, errcode: i64)
    ensures
        errcode_of(reply, body) is Some <==> (reply matches Some(json) && has_number(
            json,
            "errcode"@,
        )),
        errcode_of(reply, body) matches Some(error) ==> error.0 == number_at(
            reply->0,
            "errcode"@,
        ) && is_message_of(error.1, reply->0, "errmsg"@, "err_msg"@, body),
        is_token_errcode(errcode) <==> errcode == 40014 || errcode == 42001,
        refuses_token(reply) <==> (reply matches Some(json) && has_number(json, "errcode"@) && (
        number_at(json, "errcode"@) == 40014 || number_at(json, "errcode"@) == 42001)),
{
}

/// A message that got no answer fails for that reason; one that got an answer is judged by it.
/// Either way the delivery is over, and the tokens stay.
pub proof fn law_message_is_judged_by_its_answer(
    label: Seq<char>,
    failure: Seq<char>,
    reason: String,
    status: StatusCode,
    body: String,
    tokens: Map<TokenKey, CachedToken>,
)
    ensures
        ({
            let pending = PendingView::Message { label, failure };
            let failed = Reply::Failed(reason);
            let answered = Reply::Answered(status, body);
            &&& next_step(pending, failed) == StepView::Done(Err(failure + reason@))
            &&& next_step(pending, answered) == StepView::Done(
                judged(label, status.number(), body@, read_json(body@)),
            )
            &&& tokens_after_reply(tokens, pending, failed) == tokens
            &&& tokens_after_reply(tokens, pending, answered) == tokens
        }),
{
}

/// What follows a posted message of a WeCom application: a first answer that refuses the token
/// has the token forgotten and the message sent once more; a second one is a failure, whatever
/// else it says; anything else ends the delivery and leaves the tokens.
pub proof fn law_wecom_message_is_sent_anew_once(
    message: WecomMessageView,
    refused: bool,
    outcome: Result<Seq<char>, Seq<char>>,
    tokens: Map<TokenKey, CachedToken>,
)
    ensures
        ({
            let step = wecom_next_step(message, refused, outcome);
            let kept = tokens_after_post(tokens, message, refused);
            if !refused {
                step == StepView::Done(outcome) && kept == tokens
            } else if message.retried {
                &&& step matches StepView::Done(Err(text))
                &&& outcome == Ok::<Seq<char>, Seq<char>>(text) || outcome == Err::<
                    Seq<char>,
                    Seq<char>,
                >(text)
                &&& kept == tokens
            } else {
                &&& step matches StepView::WecomToken(again)
                &&& again.corp_id == message.corp_id
                &&& again.secret == message.secret
                &&& again.payload == message.payload
                &&& again.retried
                &&& !kept.contains_key((message.corp_id, message.secret))
                &&& forall|key: TokenKey|
                    key != (message.corp_id, message.secret) ==> kept.contains_key(key)
                        == tokens.contains_key(key) && kept[key] == tokens[key]
            }
        }),
{
}

/// Whether the body of an answer refuses the token of a WeCom application.
pub open spec fn body_refuses_token(body: Seq<char>) -> bool {
    read_json(body) matches Some(json) && has_number(json, "errcode"@) && (number_at(
        json,
        "errcode"@,
    ) == 40014 || number_at(json, "errcode"@) == 42001)
}

/// A posted message of a WeCom application is followed by what its reply says: no answer is a
/// failure, and an answer is judged like any other, and by whether it refuses the token.
pub proof fn law_wecom_message_is_judged_by_its_answer(
    message: WecomMessageView,
    reason: String,
    status: StatusCode,
    body: String,
    tokens: Map<TokenKey, CachedToken>,
)
    ensures
        ({
            let pending = PendingView::Wecom(message);
            let failed = Reply::Failed(reason);
            let answered = Reply::Answered(status, body);
            let refused = body_refuses_token(body@);
            &&& next_step(pending, failed) == StepView::Done(
                Err("Failed to send 企业微信应用消息 message: "@ + reason@),
            )
            &&& tokens_after_reply(tokens, pending, failed) == tokens
            &&& if refused && !message.retried {
                &&& next_step(pending, answered) is WecomToken
                &&& tokens_after_reply(tokens, pending, answered) == tokens.remove(
                    (message.corp_id, message.secret),
                )
            } else {
                &&& next_step(pending, answered) == StepView::Done(
                    judged("企业微信应用消息"@, status.number(), body@, read_json(body@)),
                )
                &&& tokens_after_reply(tokens, pending, answered) == tokens
            }
        }),
{
    if body_refuses_token(body@) {
        law_delivery_goes_well_iff_nothing_is_wrong(
            "企业微信应用消息"@,
            status.number(),
            body@,
            read_json(body@),
        );
    }
}

/// A message of a WeCom application is posted with its token in the address; without a token,
/// the delivery fails for the same reason.
pub proof fn law_wecom_message_is_posted_with_its_token(
    message: WecomMessageView,
    token: Seq<char>,
    reason: Seq<char>,
)
    ensures
        wecom_post_step(message, Err(reason)) == StepView::Done(Err(reason)),
        ({
            let step = wecom_post_step(message, Ok(token));
            &&& step matches StepView::Send(request, pending)
            &&& request.method == Method::Post
            &&& request.url == "https://qyapi.weixin.qq.com/cgi-bin/message/send?access_token="@
                + token
            &&& request.headers.len() == 0
            &&& request.body == BodyView::Json(message.payload)
            &&& pending == PendingView::Wecom(message)
        }),
{
}

/// A payload of a DingTalk robot is posted with its token in a header; without a token, the
/// delivery fails for the same reason.
pub proof fn law_dingtalk_message_is_posted_with_its_token(
    payload: Json,
    token: Seq<char>,
    reason: Seq<char>,
)
    ensures
        dingtalk_post_step(payload, Err(reason)) == StepView::Done(Err(reason)),
        ({
            let step = dingtalk_post_step(payload, Ok(token));
            &&& step matches StepView::Send(request, pending)
            &&& request.method == Method::Post
            &&& request.url == "https://api.dingtalk.com/v1.0/robot/groupMessages/send"@
            &&& request.headers.len() == 1
            &&& request.headers[0] == ("x-acs-dingtalk-access-token"@, token)
            &&& request.body == BodyView::Json(payload)
            &&& pending == (PendingView::Message {
                label: "钉钉企业内机器人"@,
                failure: "Failed to send DingTalk app robot message: "@,
            })
        }),
{
}

/// WeCom grants a token exactly if its answer has a status of success, can be read, has the
/// error number zero, and has a token in it; else the reason is reported.
pub proof fn law_wecom_token_is_granted_iff_there_is_one(
    reason: String,
    status: StatusCode,
    body: String,
    answer: WecomTokenAnswer,
)
    ensures
        wecom_grant(WecomTokenReply::Failed(reason)) == Err::<(Seq<char>, Option<u64>), Seq<char>>(
            "Failed to get WeCom access token: "@ + reason@,
        ),
        wecom_grant(WecomTokenReply::Answered(status, body, Err(reason))) == Err::<
            (Seq<char>, Option<u64>),
            Seq<char>,
        >(
            if 200 <= status.number() < 300 {
                "Failed to parse WeCom token response: "@ + reason@
            } else {
                "WeCom token request failed ("@ + status_words(status.number()) + "): "@ + body@
            },
        ),
        wecom_grant(WecomTokenReply::Answered(status, body, Ok(answer))) == (if !(200
            <= status.number() < 300) {
            Err(
                "WeCom token request failed ("@ + status_words(status.number()) + "): "@ + body@,
            )
        } else if answer.errcode != 0 {
            Err(
                "WeCom token error "@ + integer_text(answer.errcode as int) + ": "@
                    + answer.errmsg@,
            )
        } else if answer.access_token@.len() == 0 {
            Err("WeCom token response did not include access_token"@)
        } else {
            Ok((answer.access_token@, answer.expires_in))
        }),
{
}

/// DingTalk grants a token exactly if its answer has a status of success, can be read, and has a
/// token in it; else the reason is reported.
pub proof fn law_dingtalk_token_is_granted_iff_there_is_one(
    reason: String,
    status: StatusCode,
    body: String,
    answer: DingtalkTokenAnswer,
)
    ensures
        dingtalk_grant(DingtalkTokenReply::Failed(reason)) == Err::<Seq<char>, Seq<char>>(
            "Failed to get DingTalk access token: "@ + reason@,
        ),
        dingtalk_grant(DingtalkTokenReply::Answered(status, body, Err(reason))) == Err::<
            Seq<char>,
            Seq<char>,
        >(
            if 200 <= status.number() < 300 {
                "Failed to parse DingTalk token response: "@ + reason@
            } else {
                "DingTalk token request failed ("@ + status_words(status.number()) + "): "@ + body@
            },
        ),
        dingtalk_grant(DingtalkTokenReply::Answered(status, body, Ok(answer))) == (if !(200
            <= status.number() < 300) {
            Err(
                "DingTalk token request failed ("@ + status_words(status.number()) + "): "@
                    + body@,
            )
        } else if answer.access_token@.len() > 0 {
            Ok(answer.access_token@)
        } else {
            Err(
                "DingTalk token response did not include accessToken: "@ + answer.code@ + " "@
                    + answer.message@,
            )
        }),
{
}

/// A token is requested by the corporation and its secret, encoded in the address, wherever no
/// token is kept for them or the one that is kept is due; else the one that is kept serves.
pub proof fn law_token_is_requested_iff_none_serves(
    tokens: Map<TokenKey, CachedToken>,
    corp_id: Seq<char>,
    secret: Seq<char>,
    now: Span,
)
    ensures
        ({
            let key = (corp_id, secret);
            let nanos = now.secs * 1_000_000_000 + now.nanos;
            let source = token_source(tokens, key, now);
            if tokens.contains_key(key) && nanos < tokens[key].refresh_at {
                &&& source == WecomTokenView::Cached(tokens[key].token)
                &&& fresh_token(tokens, key, now) == Some(tokens[key].token)
            } else {
                &&& fresh_token(tokens, key, now) is None
                &&& source matches WecomTokenView::Missing(request)
                &&& request.method == Method::Get
                &&& request.url == "https://qyapi.weixin.qq.com/cgi-bin/gettoken?corpid="@
                    + percent_encoded(corp_id) + "&corpsecret="@ + percent_encoded(secret)
                &&& request.headers.len() == 0
                &&& request.body == BodyView::Empty
            }
        }),
{
}

/// A token that lasts for more than ten minutes is due five minutes before its end, a shorter
/// one at half its time, and none at once. Where nothing is said, a token lasts for two hours.
pub proof fn law_token_is_due_before_its_end(secs: u64)
    ensures
        refresh_after_secs(None) == 6900,
        secs > 600 ==> refresh_after_secs(Some(secs)) == secs - 300,
        2 <= secs <= 600 ==> refresh_after_secs(Some(secs)) == secs / 2,
        secs <= 1 ==> refresh_after_secs(Some(secs)) == 1,
{
}

/// A token that was granted is kept until it is due, in place of any other for the same
/// corporation and secret; one that was not granted changes nothing.
pub proof fn law_granted_token_is_kept(
    tokens: Map<TokenKey, CachedToken>,
    key: TokenKey,
    token: Seq<char>,
    expires_in: Option<u64>,
    reason: Seq<char>,
    now: Span,
)
    ensures
        tokens_after_grant(tokens, key, Err(reason), now) == tokens,
        ({
            let kept = tokens_after_grant(tokens, key, Ok((token, expires_in)), now);
            &&& kept.contains_key(key)
            &&& kept[key].token == token
            &&& kept[key].refresh_at == (now.secs + refresh_after_secs(expires_in)) * 1_000_000_000
                + now.nanos
            &&& forall|other: TokenKey|
                other != key ==> kept.contains_key(other) == tokens.contains_key(other)
                    && kept[other] == tokens[other]
        }),
{
}

} // verus!
