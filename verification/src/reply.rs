//! What the answer of a service means.
use crate::json::{
    as_bool, as_i64, as_str, get, json_bool, json_field, json_i64, json_of, json_str, parse_json,
    read_json, Json,
};
use crate::text::{integer_text, integer_to_text, opt_view};
use serde_json::Value;
use vstd::prelude::*;

verus! {

/// The status of an HTTP response: a number of three digits.
#[derive(Clone, Copy, Debug, PartialEq, Eq)]
pub struct StatusCode {
    code: u16,
}

impl StatusCode {
    #[verifier::type_invariant]
    spec fn has_three_digits(self) -> bool {
        100 <= self.code <= 999
    }

    /// The number.
    pub closed spec fn number(self) -> int {
        self.code as int
    }

    /// The status with a number, where the number has three digits.
    pub fn from_u16(code: u16) -> (status: Option<StatusCode>)
        ensures
            status is Some <==> 100 <= code <= 999,
            status matches Some(status) ==> status.number() == code,
    {
        if 100 <= code && code <= 999 {
            Some(StatusCode { code })
        } else {
            None
        }
    }

    /// The number.
    pub fn as_u16(self) -> (code: u16)
        ensures
            code == self.number(),
            100 <= code <= 999,
    {
        proof {
            use_type_invariant(&self);
        }
        self.code
    }

    /// Whether the number is one of success.
    pub fn is_success(self) -> (success: bool)
        ensures
            success == is_success_number(self.number()),
    {
        200 <= self.code && self.code < 300
    }

    /// The number and its reason phrase.
    pub fn text(self) -> (text: String)
        ensures
            text@ == status_text(self.number()),
    {
        status_to_text(self.as_u16())
    }
}

/// Whether a status number means success.
pub open spec fn is_success_number(code: int) -> bool {
    200 <= code < 300
}

/// The reason phrase that goes with a status number.
pub uninterp spec fn status_reason(code: int) -> Seq<char>;

/// A status number and its reason phrase.
pub open spec fn status_text(code: int) -> Seq<char> {
    integer_text(code) + " "@ + status_reason(code)
}

/// `to_string` of a `reqwest::StatusCode`: the number, a space, and a phrase that the
/// number decides.
#[verifier::external_body]
fn status_to_text(code: u16) -> (text: String)
    requires
        100 <= code <= 999,
    ensures
        text@ == integer_text(code as int) + " "@ + status_reason(code as int),
{
    reqwest::StatusCode::from_u16(code).unwrap().to_string()
}

/// The field `key` as a Boolean.
pub open spec fn bool_field(reply: Json, key: Seq<char>) -> Option<bool> {
    match json_field(reply, key) {
        Some(field) => json_bool(field),
        None => None,
    }
}

/// The field `key` as a 64-bit integer.
pub open spec fn i64_field(reply: Json, key: Seq<char>) -> Option<i64> {
    match json_field(reply, key) {
        Some(field) => json_i64(field),
        None => None,
    }
}

/// The text of the field `key`, or of the field `other` where there is no field `key`;
/// the whole body where that field is no text.
pub open spec fn message_field(
    reply: Json,
    key: Seq<char>,
    other: Seq<char>,
    body: Seq<char>,
) -> Seq<char> {
    let field = match json_field(reply, key) {
        Some(field) => Some(field),
        None => json_field(reply, other),
    };
    match field {
        Some(field) => match json_str(field) {
            Some(text) => text,
            None => body,
        },
        None => body,
    }
}

fn get_bool(reply: &Value, key: &str) -> (result: Option<bool>)
    ensures
        result == bool_field(json_of(*reply), key@),
{
    match get(reply, key) {
        Some(field) => as_bool(field),
        None => None,
    }
}

fn get_i64(reply: &Value, key: &str) -> (result: Option<i64>)
    ensures
        result == i64_field(json_of(*reply), key@),
{
    match get(reply, key) {
        Some(field) => as_i64(field),
        None => None,
    }
}

fn get_message<'a>(reply: &'a Value, key: &str, other: &str, body: &'a str) -> (result: &'a str)
    ensures
        result@ == message_field(json_of(*reply), key@, other@, body@),
{
    let field = match get(reply, key) {
        Some(field) => Some(field),
        None => get(reply, other),
    };
    match field {
        Some(field) => match as_str(field) {
            Some(text) => text,
            None => body,
        },
        None => body,
    }
}

/// The complaint of a service that reports success by its status: a false `ok`, an
/// `errcode` or a `StatusCode` other than zero, or a `code` other than 0 and 200. The
/// first of them that is found counts.
pub open spec fn complaint(label: Seq<char>, body: Seq<char>, reply: Json) -> Option<Seq<char>> {
    let errcode = i64_field(reply, "errcode"@);
    let code = i64_field(reply, "code"@);
    let status_code = i64_field(reply, "StatusCode"@);
    if bool_field(reply, "ok"@) == Some(false) {
        Some(label + " returned error: "@ + body)
    } else if errcode is Some && errcode->0 != 0 {
        Some(
            label + " returned errcode "@ + integer_text(errcode->0 as int) + ": "@
                + message_field(reply, "errmsg"@, "err_msg"@, body),
        )
    } else if code is Some && code->0 != 0 && code->0 != 200 {
        Some(
            label + " returned code "@ + integer_text(code->0 as int) + ": "@
                + message_field(reply, "msg"@, "message"@, body),
        )
    } else if status_code is Some && status_code->0 != 0 {
        Some(
            label + " returned StatusCode "@ + integer_text(status_code->0 as int) + ": "@
                + message_field(reply, "StatusMessage"@, "StatusMessage"@, body),
        )
    } else {
        None
    }
}

/// The outcome of a delivery, given the status of the response, its body, and what the
/// body holds as JSON.
pub open spec fn judged(
    label: Seq<char>,
    code: int,
    body: Seq<char>,
    reply: Option<Json>,
) -> Result<Seq<char>, Seq<char>> {
    if !is_success_number(code) {
        Err(label + " returned HTTP "@ + status_text(code) + ": "@ + body)
    } else if reply is Some && complaint(label, body, reply->0) is Some {
        Err(complaint(label, body, reply->0)->0)
    } else {
        Ok(label + " test successful (status: "@ + status_text(code) + ")"@)
    }
}

/// The view of an outcome.
pub open spec fn result_view(result: Result<String, String>) -> Result<Seq<char>, Seq<char>> {
    match result {
        Ok(text) => Ok(text@),
        Err(text) => Err(text@),
    }
}

fn report(label: &str, what: &str, number: i64, message: &str) -> (text: String)
    ensures
        text@ == label@ + what@ + integer_text(number as int) + ": "@ + message@,
{
    let mut text = label.to_owned();
    text.append(what);
    text.append(integer_to_text(number).as_str());
    text.append(": ");
    text.append(message);
    text
}

/// Finds the complaint in the answer of a service.
pub fn find_complaint(label: &str, body: &str, reply: &Value) -> (result: Option<String>)
    ensures
        opt_view(result) == complaint(label@, body@, json_of(*reply)),
{
    if let Some(ok) = get_bool(reply, "ok") {
        if !ok {
            let mut text = label.to_owned();
            text.append(" returned error: ");
            text.append(body);
            return Some(text);
        }
    }
    if let Some(errcode) = get_i64(reply, "errcode") {
        if errcode != 0 {
            let message = get_message(reply, "errmsg", "err_msg", body);
            return Some(report(label, " returned errcode ", errcode, message));
        }
    }
    if let Some(code) = get_i64(reply, "code") {
        if code != 0 && code != 200 {
            let message = get_message(reply, "msg", "message", body);
            return Some(report(label, " returned code ", code, message));
        }
    }
    if let Some(status_code) = get_i64(reply, "StatusCode") {
        if status_code != 0 {
            let message = get_message(reply, "StatusMessage", "StatusMessage", body);
            return Some(report(label, " returned StatusCode ", status_code, message));
        }
    }
    None
}

/// Judges the answer of a service, given what its body holds as JSON.
pub fn judge_reply(label: &str, status: StatusCode, body: &str, reply: Option<Value>) -> (result:
    Result<String, String>)
    ensures
        result_view(result) == judged(
            label@,
            status.number(),
            body@,
            match reply {
                Some(value) => Some(json_of(value)),
                None => None,
            },
        ),
{
    if !status.is_success() {
        let mut text = label.to_owned();
        text.append(" returned HTTP ");
        text.append(status.text().as_str());
        text.append(": ");
        text.append(body);
        return Err(text);
    }
    if let Some(value) = reply {
        if let Some(text) = find_complaint(label, body, &value) {
            return Err(text);
        }
    }
    let mut text = label.to_owned();
    text.append(" test successful (status: ");
    text.append(status.text().as_str());
    text.append(")");
    Ok(text)
}

/// The outcome of a delivery, given the status and the body of the response.
pub open spec fn outcome(label: Seq<char>, code: int, body: Seq<char>) -> Result<
    Seq<char>,
    Seq<char>,
> {
    judged(label, code, body, read_json(body))
}

/// Judges the answer of a service.
pub fn response_result(label: &str, status: StatusCode, body: String) -> (result: Result<
    String,
    String,
>)
    ensures
        result_view(result) == outcome(label@, status.number(), body@),
{
    let reply = parse_json(body.as_str());
    judge_reply(label, status, body.as_str(), reply)
}

/// The error number of an answer and its message.
pub open spec fn errcode_of(reply: Option<Json>, body: Seq<char>) -> Option<(i64, Seq<char>)> {
    match reply {
        Some(reply) => match i64_field(reply, "errcode"@) {
            Some(errcode) => Some((errcode, message_field(reply, "errmsg"@, "err_msg"@, body))),
            None => None,
        },
        None => None,
    }
}

/// Reads the error number and message, given what the body holds as JSON.
pub fn read_errcode(reply: Option<Value>, body: &str) -> (result: Option<(i64, String)>)
    ensures
        (match result {
            Some((errcode, message)) => Some((errcode, message@)),
            None => None,
        }) == errcode_of(
            match reply {
                Some(value) => Some(json_of(value)),
                None => None,
            },
            body@,
        ),
{
    match reply {
        Some(value) => match get_i64(&value, "errcode") {
            Some(errcode) => {
                let message = get_message(&value, "errmsg", "err_msg", body);
                Some((errcode, message.to_owned()))
            },
            None => None,
        },
        None => None,
    }
}

/// Reads the error number and message from the body of an answer.
pub fn json_errcode(body: &str) -> (result: Option<(i64, String)>)
    ensures
        (match result {
            Some((errcode, message)) => Some((errcode, message@)),
            None => None,
        }) == errcode_of(read_json(body@), body@),
{
    read_errcode(parse_json(body), body)
}

/// Whether an error number of WeCom means that the access token is not valid.
pub open spec fn is_token_errcode(errcode: i64) -> bool {
    errcode == 40014 || errcode == 42001
}

/// Whether an answer of WeCom refuses the access token.
pub open spec fn refuses_token(reply: Option<Json>) -> bool {
    match reply {
        Some(reply) => match i64_field(reply, "errcode"@) {
            Some(errcode) => is_token_errcode(errcode),
            None => false,
        },
        None => false,
    }
}

/// Whether an error number and message of WeCom, where there are any, refuse the access
/// token.
pub fn is_token_error(error: &Option<(i64, String)>) -> (result: bool)
    ensures
        result == (error matches Some(found) && is_token_errcode(found.0)),
{
    match error {
        Some((errcode, _)) => *errcode == 40014 || *errcode == 42001,
        None => false,
    }
}

/// Whether the body of an answer of WeCom refuses the access token.
pub fn is_wecom_access_token_error(body: &str) -> (result: bool)
    ensures
        result == refuses_token(read_json(body@)),
{
    is_token_error(&json_errcode(body))
}

} // verus!
