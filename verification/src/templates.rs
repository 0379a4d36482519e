//! Templates: texts with placeholders such as `{{content}}`.
use crate::clock::{format_notification_time, notification_time};
use crate::encoding::{escape_json_string, escaped, escaped_char};
use crate::models::{CallRecord, DdnsEvent, SmsMessage};
use crate::text::{
    integer_text, integer_to_text, is_blank, join, joined, replace, replaced, same_text, trim, views,
};
use vstd::prelude::*;

verus! {

/// A placeholder and what stands for it.
pub type Filling = (Seq<char>, Seq<char>);

/// A template with the placeholders replaced, one after the other.
pub open spec fn filled(template: Seq<char>, fillings: Seq<Filling>) -> Seq<char>
    decreases fillings.len(),
{
    if fillings.len() == 0 {
        template
    } else {
        replaced(
            filled(template, fillings.drop_last()),
            fillings.last().0,
            fillings.last().1,
        )
    }
}

/// The views of placeholders and of what stands for them.
pub open spec fn filling_views(fillings: Seq<(&str, &str)>) -> Seq<Filling> {
    fillings.map_values(|filling: (&str, &str)| (filling.0@, filling.1@))
}

/// Replaces placeholders in a template, one after the other.
fn fill(template: &str, fillings: &Vec<(&str, &str)>) -> (result: String)
    requires
        forall|i: int| 0 <= i < fillings@.len() ==> (#[trigger] fillings@[i]).0@.len() > 0,
    ensures
        result@ == filled(template@, filling_views(fillings@)),
{
    let mut text = template.to_owned();
    let mut i: usize = 0;
    while i < fillings.len()
        invariant
            i <= fillings@.len(),
            forall|i: int| 0 <= i < fillings@.len() ==> (#[trigger] fillings@[i]).0@.len() > 0,
            text@ == filled(template@, filling_views(fillings@.take(i as int))),
        decreases fillings@.len() - i,
    {
        text = replace(text.as_str(), fillings[i].0, fillings[i].1);
        proof {
            let done = filling_views(fillings@.take(i + 1));
            assert(done.drop_last() =~= filling_views(fillings@.take(i as int)));
            assert(done.last() == (fillings@[i as int].0@, fillings@[i as int].1@));
        }
        i = i + 1;
    }
    assert(fillings@.take(fillings@.len() as int) =~= fillings@);
    text
}

/// A value as it goes into a template: escaped where the template is JSON.
pub open spec fn value_text(value: Seq<char>, escape_json: bool) -> Seq<char> {
    if escape_json {
        escaped(value)
    } else {
        value
    }
}

/// A value as it goes into a template: escaped where the template is JSON.
fn escape_if(value: &str, escape_json: bool) -> (result: String)
    ensures
        result@ == value_text(value@, escape_json),
{
    if escape_json {
        escape_json_string(value)
    } else {
        value.to_owned()
    }
}

/// A timestamp as it goes into a template.
pub fn render_time_value(value: &str, escape_json: bool) -> (result: String)
    ensures
        result@ == value_text(notification_time(value@), escape_json),
{
    let formatted = format_notification_time(value);
    escape_if(formatted.as_str(), escape_json)
}

/// What stands for the placeholders of a text message, given the text of its time.
pub open spec fn sms_fillings(message: SmsMessage, time: Seq<char>, escape_json: bool) -> Seq<
    Filling,
> {
    let content = value_text(message.content@, escape_json);
    seq![
        ("{{id}}"@, integer_text(message.id as int)),
        ("{{phone_number}}"@, message.phone_number@),
        ("{{content}}"@, content),
        ("{{direction}}"@, message.direction@),
        ("{{timestamp}}"@, value_text(time, escape_json)),
        ("{{status}}"@, message.status@),
        ("{{sender}}"@, message.phone_number@),
        ("{{message}}"@, content),
        ("{{time}}"@, value_text(time, escape_json)),
    ]
}

/// A text message in a template.
pub open spec fn sms_text(template: Seq<char>, message: SmsMessage, escape_json: bool) -> Seq<
    char,
> {
    filled(template, sms_fillings(message, notification_time(message.timestamp@), escape_json))
}

/// Fills a template for a text message, given the text of its time.
pub fn fill_sms_template(template: &str, message: &SmsMessage, time: &str, escape_json: bool) -> (
result: String)
    ensures
        result@ == filled(template@, sms_fillings(*message, time@, escape_json)),
{
    let content = escape_if(message.content.as_str(), escape_json);
    let timestamp = escape_if(time, escape_json);
    let id = integer_to_text(message.id);
    let fillings = vec![
        ("{{id}}", id.as_str()),
        ("{{phone_number}}", message.phone_number.as_str()),
        ("{{content}}", content.as_str()),
        ("{{direction}}", message.direction.as_str()),
        ("{{timestamp}}", timestamp.as_str()),
        ("{{status}}", message.status.as_str()),
        ("{{sender}}", message.phone_number.as_str()),
        ("{{message}}", content.as_str()),
        ("{{time}}", timestamp.as_str()),
    ];
    proof {
        lemma_sms_placeholders(*message, time@, escape_json);
        assert(filling_views(fillings@) =~= sms_fillings(*message, time@, escape_json));
        lemma_placeholders_not_empty(fillings@);
    }
    fill(template, &fillings)
}

/// Fills a template for a text message.
pub fn render_sms_template(template: &str, message: &SmsMessage, escape_json: bool) -> (result:
    String)
    ensures
        result@ == sms_text(template@, *message, escape_json),
{
    let time = format_notification_time(message.timestamp.as_str());
    fill_sms_template(template, message, time.as_str(), escape_json)
}

/// What stands for the placeholders of a call, given the texts of its times.
pub open spec fn call_fillings(
    call: CallRecord,
    start_time: Seq<char>,
    end_time: Seq<char>,
    escape_json: bool,
) -> Seq<Filling> {
    let start_text = value_text(start_time, escape_json);
    let answered = if call.answered {
        "是"@
    } else {
        "否"@
    };
    seq![
        ("{{id}}"@, integer_text(call.id as int)),
        ("{{phone_number}}"@, call.phone_number@),
        ("{{direction}}"@, call.direction@),
        (
            "{{direction_cn}}"@,
            if call.direction@ == "incoming"@ {
                "来电"@
            } else {
                "去电"@
            },
        ),
        ("{{duration}}"@, integer_text(call.duration as int)),
        ("{{start_time}}"@, start_text),
        ("{{end_time}}"@, value_text(end_time, escape_json)),
        ("{{answered}}"@, value_text(answered, escape_json)),
        (
            "{{answered_bool}}"@,
            if call.answered {
                "true"@
            } else {
                "false"@
            },
        ),
        ("{{caller}}"@, call.phone_number@),
        ("{{time}}"@, start_text),
    ]
}

/// The text of an optional timestamp; nothing where there is none.
pub open spec fn optional_time(value: Option<String>) -> Seq<char> {
    match value {
        Some(value) => notification_time(value@),
        None => seq![],
    }
}

/// A call in a template.
pub open spec fn call_text(template: Seq<char>, call: CallRecord, escape_json: bool) -> Seq<char> {
    filled(
        template,
        call_fillings(
            call,
            notification_time(call.start_time@),
            optional_time(call.end_time),
            escape_json,
        ),
    )
}

/// Fills a template for a call, given the texts of its times.
pub fn fill_call_template(
    template: &str,
    call: &CallRecord,
    start_time: &str,
    end_time: &str,
    escape_json: bool,
) -> (result: String)
    ensures
        result@ == filled(
            template@,
            call_fillings(*call, start_time@, end_time@, escape_json),
        ),
{
    let start_text = escape_if(start_time, escape_json);
    let end_text = escape_if(end_time, escape_json);
    let answered = escape_if(if call.answered { "是" } else { "否" }, escape_json);
    let direction_cn = if same_text(call.direction.as_str(), "incoming") {
        "来电"
    } else {
        "去电"
    };
    let id = integer_to_text(call.id);
    let duration = integer_to_text(call.duration);
    let fillings = vec![
        ("{{id}}", id.as_str()),
        ("{{phone_number}}", call.phone_number.as_str()),
        ("{{direction}}", call.direction.as_str()),
        ("{{direction_cn}}", direction_cn),
        ("{{duration}}", duration.as_str()),
        ("{{start_time}}", start_text.as_str()),
        ("{{end_time}}", end_text.as_str()),
        ("{{answered}}", answered.as_str()),
        ("{{answered_bool}}", if call.answered { "true" } else { "false" }),
        ("{{caller}}", call.phone_number.as_str()),
        ("{{time}}", start_text.as_str()),
    ];
    proof {
        lemma_call_placeholders(*call, start_time@, end_time@, escape_json);
        assert(filling_views(fillings@) =~= call_fillings(
            *call,
            start_time@,
            end_time@,
            escape_json,
        ));
        lemma_placeholders_not_empty(fillings@);
    }
    fill(template, &fillings)
}

/// Fills a template for a call.
pub fn render_call_template(template: &str, call: &CallRecord, escape_json: bool) -> (result:
    String)
    ensures
        result@ == call_text(template@, *call, escape_json),
{
    let start_time = format_notification_time(call.start_time.as_str());
    let end_time = match &call.end_time {
        Some(value) => format_notification_time(value.as_str()),
        None => String::new(),
    };
    fill_call_template(template, call, start_time.as_str(), end_time.as_str(), escape_json)
}

/// The template of dynamic DNS events where none is configured.
pub const DEFAULT_DDNS_TEXT_TEMPLATE: &'static str = "SimAdmin DDNS 通知\n域名: {{domains}}\nIP类型: {{ip_type}}\n新IP: {{new_ip}}\n旧IP: {{old_ip}}\n服务商: {{provider}}\n记录类型: {{record_type}}\n状态: {{status}}\n消息: {{message}}\n更新时间: {{timestamp}}";

/// The template of dynamic DNS events in JSON where none is configured.
pub const DEFAULT_DDNS_JSON_TEMPLATE: &'static str = r#"{
  "msg_type": "text",
  "content": {
    "text": "SimAdmin DDNS 通知\n域名: {{domains}}\nIP类型: {{ip_type}}\n新IP: {{new_ip}}\n旧IP: {{old_ip}}\n服务商: {{provider}}\n记录类型: {{record_type}}\n状态: {{status}}\n消息: {{message}}\n更新时间: {{timestamp}}"
  }
}"#;

/// The template that is filled: the configured one, or the default for a blank one.
pub open spec fn ddns_template(template: Seq<char>, escape_json: bool) -> Seq<char> {
    if !is_blank(template) {
        template
    } else if escape_json {
        DEFAULT_DDNS_JSON_TEMPLATE@
    } else {
        DEFAULT_DDNS_TEXT_TEMPLATE@
    }
}

/// The domains of an event, or a dash.
pub open spec fn domains_text(domains: Seq<String>) -> Seq<char> {
    if domains.len() == 0 {
        "-"@
    } else {
        joined(views(domains), ", "@)
    }
}

/// The kind of address that a record type holds; any other record type is itself.
pub open spec fn ip_type_text(record_type: Seq<char>) -> Seq<char> {
    if record_type == "A"@ {
        "IPv4"@
    } else if record_type == "AAAA"@ {
        "IPv6"@
    } else {
        record_type
    }
}

/// An address, or a dash.
pub open spec fn ip_text(ip: Option<String>) -> Seq<char> {
    match ip {
        Some(ip) => ip@,
        None => "-"@,
    }
}

/// What stands for the placeholders of a dynamic DNS event, given the text of its time.
pub open spec fn ddns_fillings(event: DdnsEvent, time: Seq<char>, escape_json: bool) -> Seq<
    Filling,
> {
    let domains = value_text(domains_text(event.domains@), escape_json);
    let ip_type = value_text(ip_type_text(event.record_type@), escape_json);
    let new_ip = value_text(ip_text(event.new_ip), escape_json);
    let old_ip = value_text(ip_text(event.old_ip), escape_json);
    let provider = value_text(event.provider@, escape_json);
    let record_type = value_text(event.record_type@, escape_json);
    let status = value_text(event.status@, escape_json);
    let message = value_text(event.message@, escape_json);
    let timestamp = value_text(time, escape_json);
    seq![
        ("{{domains}}"@, domains),
        ("{{domain}}"@, domains),
        ("{{ip_type}}"@, ip_type),
        ("{{new_ip}}"@, new_ip),
        ("{{old_ip}}"@, old_ip),
        ("{{provider}}"@, provider),
        ("{{record_type}}"@, record_type),
        ("{{status}}"@, status),
        ("{{message}}"@, message),
        ("{{timestamp}}"@, timestamp),
        ("{{time}}"@, timestamp),
        ("{{域名}}"@, domains),
        ("{{IP类型}}"@, ip_type),
        ("{{新IP}}"@, new_ip),
        ("{{旧IP}}"@, old_ip),
        ("{{服务商}}"@, provider),
        ("{{记录类型}}"@, record_type),
        ("{{状态}}"@, status),
        ("{{消息}}"@, message),
        ("{{更新时间}}"@, timestamp),
    ]
}

/// A dynamic DNS event in a template.
pub open spec fn ddns_text(template: Seq<char>, event: DdnsEvent, escape_json: bool) -> Seq<char> {
    filled(
        ddns_template(template, escape_json),
        ddns_fillings(event, notification_time(event.timestamp@), escape_json),
    )
}

/// Fills a template for a dynamic DNS event, given the text of its time.
pub fn fill_ddns_template(template: &str, event: &DdnsEvent, time: &str, escape_json: bool) -> (
result: String)
    ensures
        result@ == filled(
            ddns_template(template@, escape_json),
            ddns_fillings(*event, time@, escape_json),
        ),
{
    let domains = if event.domains.len() == 0 {
        "-".to_owned()
    } else {
        join(&event.domains, ", ")
    };
    let ip_type = if same_text(event.record_type.as_str(), "A") {
        "IPv4"
    } else if same_text(event.record_type.as_str(), "AAAA") {
        "IPv6"
    } else {
        event.record_type.as_str()
    };
    let old_ip = match &event.old_ip {
        Some(ip) => ip.as_str(),
        None => "-",
    };
    let new_ip = match &event.new_ip {
        Some(ip) => ip.as_str(),
        None => "-",
    };
    let template = if trim(template).is_empty() && escape_json {
        DEFAULT_DDNS_JSON_TEMPLATE
    } else if trim(template).is_empty() {
        DEFAULT_DDNS_TEXT_TEMPLATE
    } else {
        template
    };
    let domains = escape_if(domains.as_str(), escape_json);
    let ip_type = escape_if(ip_type, escape_json);
    let old_ip = escape_if(old_ip, escape_json);
    let new_ip = escape_if(new_ip, escape_json);
    let provider = escape_if(event.provider.as_str(), escape_json);
    let record_type = escape_if(event.record_type.as_str(), escape_json);
    let status = escape_if(event.status.as_str(), escape_json);
    let message = escape_if(event.message.as_str(), escape_json);
    let timestamp = escape_if(time, escape_json);
    let fillings = vec![
        ("{{domains}}", domains.as_str()),
        ("{{domain}}", domains.as_str()),
        ("{{ip_type}}", ip_type.as_str()),
        ("{{new_ip}}", new_ip.as_str()),
        ("{{old_ip}}", old_ip.as_str()),
        ("{{provider}}", provider.as_str()),
        ("{{record_type}}", record_type.as_str()),
        ("{{status}}", status.as_str()),
        ("{{message}}", message.as_str()),
        ("{{timestamp}}", timestamp.as_str()),
        ("{{time}}", timestamp.as_str()),
        ("{{域名}}", domains.as_str()),
        ("{{IP类型}}", ip_type.as_str()),
        ("{{新IP}}", new_ip.as_str()),
        ("{{旧IP}}", old_ip.as_str()),
        ("{{服务商}}", provider.as_str()),
        ("{{记录类型}}", record_type.as_str()),
        ("{{状态}}", status.as_str()),
        ("{{消息}}", message.as_str()),
        ("{{更新时间}}", timestamp.as_str()),
    ];
    proof {
        lemma_ddns_placeholders(*event, time@, escape_json);
        assert(filling_views(fillings@) =~= ddns_fillings(*event, time@, escape_json));
        lemma_placeholders_not_empty(fillings@);
    }
    fill(template, &fillings)
}

/// Fills a template for a dynamic DNS event.
pub fn render_ddns_template(template: &str, event: &DdnsEvent, escape_json: bool) -> (result:
    String)
    ensures
        result@ == ddns_text(template@, *event, escape_json),
{
    let time = format_notification_time(event.timestamp.as_str());
    fill_ddns_template(template, event, time.as_str(), escape_json)
}

/// Whether a character can stand in the name of a placeholder: no brace, and none that is
/// escaped in a JSON string.
pub open spec fn is_name_char(c: char) -> bool {
    c != '{' && c != '}' && escaped_char(c) == seq![c]
}

/// Whether a text is a name between two pairs of braces.
pub open spec fn is_placeholder(text: Seq<char>) -> bool {
    &&& text.len() >= 5
    &&& text[0] == '{' && text[1] == '{'
    &&& text[text.len() - 2] == '}' && text[text.len() - 1] == '}'
    &&& forall|i: int| 2 <= i < text.len() - 2 ==> is_name_char(#[trigger] text[i])
}

/// Whether distinct placeholders are filled.
pub open spec fn fills_placeholders(fillings: Seq<Filling>) -> bool {
    &&& forall|i: int| 0 <= i < fillings.len() ==> is_placeholder((#[trigger] fillings[i]).0)
    &&& forall|i: int, j: int|
        0 <= i < j < fillings.len() ==> (#[trigger] fillings[i]).0 != (#[trigger] fillings[j]).0
}

proof fn lemma_placeholders_not_empty(fillings: Seq<(&str, &str)>)
    requires
        fills_placeholders(filling_views(fillings)),
    ensures
        forall|i: int| 0 <= i < fillings.len() ==> (#[trigger] fillings[i]).0@.len() > 0,
{
    assert forall|i: int| 0 <= i < fillings.len() implies (#[trigger] fillings[i]).0@.len() > 0 by {
        assert(filling_views(fillings)[i].0 == fillings[i].0@);
    }
}

/// The length of a placeholder and the first two characters of its name.
spec fn placeholder_key(text: Seq<char>) -> (int, char, char) {
    (text.len() as int, text[2], text[3])
}

/// A short text between two pairs of braces is a placeholder if its characters, looked
/// at one by one, can stand in a name.
proof fn lemma_is_placeholder(text: Seq<char>)
    requires
        5 <= text.len() <= 17,
        text[0] == '{' && text[1] == '{',
        text[text.len() - 2] == '}' && text[text.len() - 1] == '}',
        is_name_char(text[2]),
        3 < text.len() - 2 ==> is_name_char(text[3]),
        4 < text.len() - 2 ==> is_name_char(text[4]),
        5 < text.len() - 2 ==> is_name_char(text[5]),
        6 < text.len() - 2 ==> is_name_char(text[6]),
        7 < text.len() - 2 ==> is_name_char(text[7]),
        8 < text.len() - 2 ==> is_name_char(text[8]),
        9 < text.len() - 2 ==> is_name_char(text[9]),
        10 < text.len() - 2 ==> is_name_char(text[10]),
        11 < text.len() - 2 ==> is_name_char(text[11]),
        12 < text.len() - 2 ==> is_name_char(text[12]),
        13 < text.len() - 2 ==> is_name_char(text[13]),
        14 < text.len() - 2 ==> is_name_char(text[14]),
    ensures
        is_placeholder(text),
{
    assert forall|i: int| 2 <= i < text.len() - 2 implies is_name_char(#[trigger] text[i]) by {
        assert(i == 2 || i == 3 || i == 4 || i == 5 || i == 6 || i == 7 || i == 8 || i == 9 || i
            == 10 || i == 11 || i == 12 || i == 13 || i == 14);
    }
}

pub(crate) proof fn lemma_sms_placeholders(message: SmsMessage, time: Seq<char>, escape_json: bool)
    ensures
        fills_placeholders(sms_fillings(message, time, escape_json)),
{
    let fillings = sms_fillings(message, time, escape_json);
    reveal_strlit("{{id}}");
    reveal_strlit("{{phone_number}}");
    reveal_strlit("{{content}}");
    reveal_strlit("{{direction}}");
    reveal_strlit("{{timestamp}}");
    reveal_strlit("{{status}}");
    reveal_strlit("{{sender}}");
    reveal_strlit("{{message}}");
    reveal_strlit("{{time}}");
    lemma_is_placeholder("{{id}}"@);
    lemma_is_placeholder("{{phone_number}}"@);
    lemma_is_placeholder("{{content}}"@);
    lemma_is_placeholder("{{direction}}"@);
    lemma_is_placeholder("{{timestamp}}"@);
    lemma_is_placeholder("{{status}}"@);
    lemma_is_placeholder("{{sender}}"@);
    lemma_is_placeholder("{{message}}"@);
    lemma_is_placeholder("{{time}}"@);
    assert forall|i: int| 0 <= i < fillings.len() implies is_placeholder(
        (#[trigger] fillings[i]).0,
    ) by {
        assert(i == 0 || i == 1 || i == 2 || i == 3 || i == 4 || i == 5 || i == 6 || i == 7
            || i == 8);
    }
    assert forall|i: int, j: int| 0 <= i < j < fillings.len() implies (
    #[trigger] fillings[i]).0 != (#[trigger] fillings[j]).0 by {
        assert(i == 0 || i == 1 || i == 2 || i == 3 || i == 4 || i == 5 || i == 6 || i == 7
            || i == 8);
        assert(j == 0 || j == 1 || j == 2 || j == 3 || j == 4 || j == 5 || j == 6 || j == 7
            || j == 8);
        assert(placeholder_key(fillings[i].0) != placeholder_key(fillings[j].0));
    }
}

pub(crate) proof fn lemma_call_placeholders(
    call: CallRecord,
    start_time: Seq<char>,
    end_time: Seq<char>,
    escape_json: bool,
)
    ensures
        fills_placeholders(call_fillings(call, start_time, end_time, escape_json)),
{
    let fillings = call_fillings(call, start_time, end_time, escape_json);
    reveal_strlit("{{id}}");
    reveal_strlit("{{phone_number}}");
    reveal_strlit("{{direction}}");
    reveal_strlit("{{direction_cn}}");
    reveal_strlit("{{duration}}");
    reveal_strlit("{{start_time}}");
    reveal_strlit("{{end_time}}");
    reveal_strlit("{{answered}}");
    reveal_strlit("{{answered_bool}}");
    reveal_strlit("{{caller}}");
    reveal_strlit("{{time}}");
    lemma_is_placeholder("{{id}}"@);
    lemma_is_placeholder("{{phone_number}}"@);
    lemma_is_placeholder("{{direction}}"@);
    lemma_is_placeholder("{{direction_cn}}"@);
    lemma_is_placeholder("{{duration}}"@);
    lemma_is_placeholder("{{start_time}}"@);
    lemma_is_placeholder("{{end_time}}"@);
    lemma_is_placeholder("{{answered}}"@);
    lemma_is_placeholder("{{answered_bool}}"@);
    lemma_is_placeholder("{{caller}}"@);
    lemma_is_placeholder("{{time}}"@);
    assert forall|i: int| 0 <= i < fillings.len() implies is_placeholder(
        (#[trigger] fillings[i]).0,
    ) by {
        assert(i == 0 || i == 1 || i == 2 || i == 3 || i == 4 || i == 5 || i == 6 || i == 7
            || i == 8 || i == 9 || i == 10);
    }
    assert forall|i: int, j: int| 0 <= i < j < fillings.len() implies (
    #[trigger] fillings[i]).0 != (#[trigger] fillings[j]).0 by {
        assert(i == 0 || i == 1 || i == 2 || i == 3 || i == 4 || i == 5 || i == 6 || i == 7
            || i == 8 || i == 9 || i == 10);
        assert(j == 0 || j == 1 || j == 2 || j == 3 || j == 4 || j == 5 || j == 6 || j == 7
            || j == 8 || j == 9 || j == 10);
        assert(placeholder_key(fillings[i].0) != placeholder_key(fillings[j].0));
    }
}

pub(crate) proof fn lemma_ddns_placeholders(event: DdnsEvent, time: Seq<char>, escape_json: bool)
    ensures
        fills_placeholders(ddns_fillings(event, time, escape_json)),
{
    let fillings = ddns_fillings(event, time, escape_json);
    reveal_strlit("{{domains}}");
    reveal_strlit("{{domain}}");
    reveal_strlit("{{ip_type}}");
    reveal_strlit("{{new_ip}}");
    reveal_strlit("{{old_ip}}");
    reveal_strlit("{{provider}}");
    reveal_strlit("{{record_type}}");
    reveal_strlit("{{status}}");
    reveal_strlit("{{message}}");
    reveal_strlit("{{timestamp}}");
    reveal_strlit("{{time}}");
    reveal_strlit("{{域名}}");
    reveal_strlit("{{IP类型}}");
    reveal_strlit("{{新IP}}");
    reveal_strlit("{{旧IP}}");
    reveal_strlit("{{服务商}}");
    reveal_strlit("{{记录类型}}");
    reveal_strlit("{{状态}}");
    reveal_strlit("{{消息}}");
    reveal_strlit("{{更新时间}}");
    lemma_is_placeholder("{{domains}}"@);
    lemma_is_placeholder("{{domain}}"@);
    lemma_is_placeholder("{{ip_type}}"@);
    lemma_is_placeholder("{{new_ip}}"@);
    lemma_is_placeholder("{{old_ip}}"@);
    lemma_is_placeholder("{{provider}}"@);
    lemma_is_placeholder("{{record_type}}"@);
    lemma_is_placeholder("{{status}}"@);
    lemma_is_placeholder("{{message}}"@);
    lemma_is_placeholder("{{timestamp}}"@);
    lemma_is_placeholder("{{time}}"@);
    lemma_is_placeholder("{{域名}}"@);
    lemma_is_placeholder("{{IP类型}}"@);
    lemma_is_placeholder("{{新IP}}"@);
    lemma_is_placeholder("{{旧IP}}"@);
    lemma_is_placeholder("{{服务商}}"@);
    lemma_is_placeholder("{{记录类型}}"@);
    lemma_is_placeholder("{{状态}}"@);
    lemma_is_placeholder("{{消息}}"@);
    lemma_is_placeholder("{{更新时间}}"@);
    assert forall|i: int| 0 <= i < fillings.len() implies is_placeholder(
        (#[trigger] fillings[i]).0,
    ) by {
        assert(i == 0 || i == 1 || i == 2 || i == 3 || i == 4 || i == 5 || i == 6 || i == 7
            || i == 8 || i == 9 || i == 10 || i == 11 || i == 12 || i == 13 || i == 14
            || i == 15 || i == 16 || i == 17 || i == 18 || i == 19);
    }
    assert forall|i: int, j: int| 0 <= i < j < fillings.len() implies (
    #[trigger] fillings[i]).0 != (#[trigger] fillings[j]).0 by {
        assert(i == 0 || i == 1 || i == 2 || i == 3 || i == 4 || i == 5 || i == 6 || i == 7
            || i == 8 || i == 9 || i == 10 || i == 11 || i == 12 || i == 13 || i == 14
            || i == 15 || i == 16 || i == 17 || i == 18 || i == 19);
        assert(j == 0 || j == 1 || j == 2 || j == 3 || j == 4 || j == 5 || j == 6 || j == 7
            || j == 8 || j == 9 || j == 10 || j == 11 || j == 12 || j == 13 || j == 14
            || j == 15 || j == 16 || j == 17 || j == 18 || j == 19);
        assert(placeholder_key(fillings[i].0) != placeholder_key(fillings[j].0));
    }
}

} // verus!
