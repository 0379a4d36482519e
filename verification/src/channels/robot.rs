//! What group robots share.
use crate::encoding::{encode_path_segment, percent_encoded};
use crate::reply::result_view;
use crate::text::{is_blank, trim, trimmed};
use vstd::prelude::*;

verus! {

/// The address of a robot: the configured one, or the key behind a prefix. It takes one of
/// the two.
pub open spec fn robot_url(webhook_url: Seq<char>, key: Seq<char>, prefix: Seq<char>) -> Result<
    Seq<char>,
    Seq<char>,
> {
    if !is_blank(webhook_url) {
        Ok(trimmed(webhook_url))
    } else if is_blank(key) {
        Err("Webhook URL 或 Key/Token 未配置"@)
    } else {
        Ok(prefix + percent_encoded(trimmed(key)))
    }
}

/// The address of a robot.
pub fn robot_webhook_url(webhook_url: &str, key: &str, prefix: &str) -> (result: Result<
    String,
    String,
>)
    ensures
        result_view(result) == robot_url(webhook_url@, key@, prefix@),
{
    let webhook_url = trim(webhook_url);
    if !webhook_url.is_empty() {
        return Ok(webhook_url.to_owned());
    }
    let key = trim(key);
    if key.is_empty() {
        return Err("Webhook URL 或 Key/Token 未配置".to_owned());
    }
    let mut url = prefix.to_owned();
    url.append(encode_path_segment(key).as_str());
    Ok(url)
}

} // verus!
