//! What holds of filled templates.
use crate::clock::{lemma_notification_time_is_a_time_or_the_text, notification_time};
use crate::encoding::{escaped, escaped_char, is_ordinary, law_ordinary_text_is_not_changed};
use crate::models::{CallRecord, DdnsEvent, SmsMessage};
use crate::templates::{
    call_fillings, call_text, ddns_fillings, ddns_text, domains_text, filled, fills_placeholders,
    ip_text, ip_type_text, is_placeholder, lemma_call_placeholders, lemma_ddns_placeholders,
    lemma_sms_placeholders, optional_time, sms_fillings, sms_text, value_text, Filling,
    DEFAULT_DDNS_JSON_TEMPLATE, DEFAULT_DDNS_TEXT_TEMPLATE,
};
use crate::text::{
    begins_with, integer_text, is_blank, is_digit, joined, lemma_trimmed_is_a_subrange,
    natural_text, replaced, trimmed, trimmed_end, trimmed_start, views,
};
use crate::text_laws::law_natural_text_reads_back;
use vstd::prelude::*;

verus! {

/// Whether `part` occurs in `text`.
pub open spec fn occurs(part: Seq<char>, text: Seq<char>) -> bool {
    exists|i: int|
        0 <= i <= text.len() - part.len() && #[trigger] text.subrange(i, i + part.len()) == part
}

/// A text without an occurrence of `from` stays as it is.
pub(crate) proof fn lemma_replaced_nowhere(text: Seq<char>, from: Seq<char>, to: Seq<char>)
    requires
        from.len() > 0,
        !occurs(from, text),
    ensures
        replaced(text, from, to) == text,
    decreases text.len(),
{
    if text.len() > 0 {
        let rest = text.skip(1);
        if begins_with(text, from) {
            assert(text.subrange(0, 0int + from.len()) =~= text.take(from.len() as int));
            assert(occurs(from, text));
        }
        assert forall|i: int| 0 <= i <= rest.len() - from.len() implies #[trigger] rest.subrange(
            i,
            i + from.len(),
        ) != from by {
            assert(rest.subrange(i, i + from.len()) =~= text.subrange(i + 1, i + 1 + from.len()));
        }
        lemma_replaced_nowhere(rest, from, to);
        assert(replaced(text, from, to) =~= text);
    }
}

/// A text that is `from` becomes `to`.
proof fn lemma_replaced_whole(from: Seq<char>, to: Seq<char>)
    requires
        from.len() > 0,
    ensures
        replaced(from, from, to) == to,
{
    assert(from.take(from.len() as int) =~= from);
    assert(from.skip(from.len() as int).len() == 0);
    assert(to + replaced(from.skip(from.len() as int), from, to) =~= to);
}

/// A placeholder does not occur in a text without two braces in a row.
pub(crate) proof fn lemma_braces_needed(placeholder: Seq<char>, text: Seq<char>)
    requires
        is_placeholder(placeholder),
        is_plain(text),
    ensures
        !occurs(placeholder, text),
{
    assert forall|i: int| 0 <= i <= text.len() - placeholder.len() implies #[trigger] text.subrange(
        i,
        i + placeholder.len(),
    ) != placeholder by {
        let part = text.subrange(i, i + placeholder.len());
        assert(part[0] == text[i] && part[1] == text[i + 1]);
        assert(!(text[i] == '{' && text[i + 1] == '{'));
    }
}

/// A placeholder does not occur in another.
proof fn lemma_placeholders_apart(placeholder: Seq<char>, other: Seq<char>)
    requires
        is_placeholder(placeholder),
        is_placeholder(other),
        placeholder != other,
    ensures
        !occurs(placeholder, other),
{
    let n = placeholder.len() as int;
    assert forall|i: int| 0 <= i <= other.len() - n implies #[trigger] other.subrange(i, i + n)
        != placeholder by {
        let part = other.subrange(i, i + n);
        if part == placeholder {
            assert(part[0] == other[i] && part[1] == other[i + 1]);
            if i > 0 {
                assert(other[i + 1] != '{');
            } else {
                assert(part[n - 2] == other[n - 2]);
                assert(part[n - 1] == other[n - 1]);
                assert(n == other.len());
                assert(part =~= other);
            }
        }
    }
}

/// Whether a text has no two opening braces in a row.
pub open spec fn is_plain(text: Seq<char>) -> bool {
    forall|i: int|
        #![trigger text[i]]
        0 <= i < text.len() - 1 ==> !(text[i] == '{' && text[i + 1] == '{')
}

/// With the last filling left out, distinct placeholders are filled.
pub(crate) proof fn lemma_fewer_placeholders(fillings: Seq<Filling>)
    requires
        fills_placeholders(fillings),
        fillings.len() > 0,
    ensures
        fills_placeholders(fillings.drop_last()),
{
    let before = fillings.drop_last();
    assert forall|i: int, j: int| 0 <= i < j < before.len() implies (#[trigger] before[i]).0 != (
    #[trigger] before[j]).0 by {
        assert(fillings[i].0 != fillings[j].0);
    }
}

proof fn lemma_plain_template(template: Seq<char>, fillings: Seq<Filling>)
    requires
        is_plain(template),
        fills_placeholders(fillings),
    ensures
        filled(template, fillings) == template,
    decreases fillings.len(),
{
    if fillings.len() > 0 {
        let before = fillings.drop_last();
        lemma_fewer_placeholders(fillings);
        lemma_plain_template(template, before);
        assert(is_placeholder(fillings[fillings.len() - 1].0));
        lemma_braces_needed(fillings.last().0, template);
        lemma_replaced_nowhere(template, fillings.last().0, fillings.last().1);
    }
}

/// What `fillings` make of the placeholder of one of them: its value, unless a later
/// placeholder occurs in that value.
proof fn lemma_lone_placeholder(fillings: Seq<Filling>, k: int)
    requires
        0 <= k < fillings.len(),
        fills_placeholders(fillings),
        forall|j: int| k < j < fillings.len() ==> !occurs((#[trigger] fillings[j]).0, fillings[k].1),
    ensures
        filled(fillings[k].0, fillings) == fillings[k].1,
    decreases fillings.len(),
{
    let n = fillings.len() - 1;
    let before = fillings.drop_last();
    lemma_fewer_placeholders(fillings);
    assert(is_placeholder(fillings[n].0));
    if k == n {
        lemma_untouched_placeholder(fillings[k].0, before);
        lemma_replaced_whole(fillings[k].0, fillings[k].1);
    } else {
        assert(before[k] == fillings[k]);
        lemma_lone_placeholder(before, k);
        assert(!occurs(fillings[n].0, fillings[k].1));
        lemma_replaced_nowhere(fillings[k].1, fillings[n].0, fillings[n].1);
    }
}

/// A placeholder that is not filled stays.
proof fn lemma_untouched_placeholder(placeholder: Seq<char>, fillings: Seq<Filling>)
    requires
        is_placeholder(placeholder),
        fills_placeholders(fillings),
        forall|j: int| 0 <= j < fillings.len() ==> (#[trigger] fillings[j]).0 != placeholder,
    ensures
        filled(placeholder, fillings) == placeholder,
    decreases fillings.len(),
{
    if fillings.len() > 0 {
        let n = fillings.len() - 1;
        let before = fillings.drop_last();
        lemma_fewer_placeholders(fillings);
        lemma_untouched_placeholder(placeholder, before);
        assert(is_placeholder(fillings[n].0));
        lemma_placeholders_apart(fillings[n].0, placeholder);
        lemma_replaced_nowhere(placeholder, fillings[n].0, fillings[n].1);
    }
}

/// A template without two opening braces in a row is the notification itself; for
/// dynamic DNS events, unless it is blank.
pub proof fn law_plain_template_is_the_text(
    template: Seq<char>,
    message: SmsMessage,
    call: CallRecord,
    event: DdnsEvent,
    escape_json: bool,
)
    requires
        is_plain(template),
    ensures
        sms_text(template, message, escape_json) == template,
        call_text(template, call, escape_json) == template,
        !is_blank(template) ==> ddns_text(template, event, escape_json) == template,
{
    let sms_time = notification_time(message.timestamp@);
    lemma_sms_placeholders(message, sms_time, escape_json);
    lemma_plain_template(template, sms_fillings(message, sms_time, escape_json));
    let start_time = notification_time(call.start_time@);
    let end_time = optional_time(call.end_time);
    lemma_call_placeholders(call, start_time, end_time, escape_json);
    lemma_plain_template(template, call_fillings(call, start_time, end_time, escape_json));
    let ddns_time = notification_time(event.timestamp@);
    lemma_ddns_placeholders(event, ddns_time, escape_json);
    lemma_plain_template(template, ddns_fillings(event, ddns_time, escape_json));
}

/// A placeholder is no white space.
proof fn lemma_placeholder_not_blank(placeholder: Seq<char>)
    requires
        is_placeholder(placeholder),
    ensures
        !is_blank(placeholder),
{
    assert(trimmed_start(placeholder) == placeholder);
    assert(trimmed_end(placeholder) == placeholder);
}

/// How a value stands in a text: as it is, or escaped where the text is JSON.
pub open spec fn value_in(value: Seq<char>, escape_json: bool) -> Seq<char> {
    if escape_json {
        escaped(value)
    } else {
        value
    }
}

/// What stands for a timestamp in a template.
pub open spec fn time_value(timestamp: Seq<char>, escape_json: bool) -> Seq<char> {
    value_in(notification_time(timestamp), escape_json)
}

/// The placeholders of a text message, each with its value: only the content and the time are
/// escaped.
pub open spec fn sms_values(message: SmsMessage, escape_json: bool) -> Seq<Filling> {
    seq![
        ("{{id}}"@, integer_text(message.id as int)),
        ("{{phone_number}}"@, message.phone_number@),
        ("{{content}}"@, value_in(message.content@, escape_json)),
        ("{{direction}}"@, message.direction@),
        ("{{timestamp}}"@, time_value(message.timestamp@, escape_json)),
        ("{{status}}"@, message.status@),
        ("{{sender}}"@, message.phone_number@),
        ("{{message}}"@, value_in(message.content@, escape_json)),
        ("{{time}}"@, time_value(message.timestamp@, escape_json)),
    ]
}

/// The placeholders of a call, each with its value: only the times are escaped.
pub open spec fn call_values(call: CallRecord, escape_json: bool) -> Seq<Filling> {
    seq![
        ("{{id}}"@, integer_text(call.id as int)),
        ("{{phone_number}}"@, call.phone_number@),
        ("{{direction}}"@, call.direction@),
        (
            "{{direction_cn}}"@,
            if call.direction@ == "incoming"@ {
                "来电"@
            } else {
                "去电"@
            },
        ),
        ("{{duration}}"@, integer_text(call.duration as int)),
        ("{{start_time}}"@, time_value(call.start_time@, escape_json)),
        (
            "{{end_time}}"@,
            match call.end_time {
                Some(end_time) => time_value(end_time@, escape_json),
                None => seq![],
            },
        ),
        (
            "{{answered}}"@,
            if call.answered {
                "是"@
            } else {
                "否"@
            },
        ),
        (
            "{{answered_bool}}"@,
            if call.answered {
                "true"@
            } else {
                "false"@
            },
        ),
        ("{{caller}}"@, call.phone_number@),
        ("{{time}}"@, time_value(call.start_time@, escape_json)),
    ]
}

/// The domains of an event with commas between them, or a dash where there is none.
pub open spec fn domains_value(event: DdnsEvent) -> Seq<char> {
    if event.domains@.len() == 0 {
        "-"@
    } else {
        joined(views(event.domains@), ", "@)
    }
}

/// The kind of address that the record of an event holds.
pub open spec fn ip_type_value(event: DdnsEvent) -> Seq<char> {
    if event.record_type@ == "A"@ {
        "IPv4"@
    } else if event.record_type@ == "AAAA"@ {
        "IPv6"@
    } else {
        event.record_type@
    }
}

/// An address, or a dash where there is none.
pub open spec fn ip_value(ip: Option<String>) -> Seq<char> {
    match ip {
        Some(ip) => ip@,
        None => "-"@,
    }
}

/// The placeholders of a dynamic DNS event, each with its value: all of them are escaped.
pub open spec fn ddns_values(event: DdnsEvent, escape_json: bool) -> Seq<Filling> {
    seq![
        ("{{domains}}"@, value_in(domains_value(event), escape_json)),
        ("{{domain}}"@, value_in(domains_value(event), escape_json)),
        ("{{ip_type}}"@, value_in(ip_type_value(event), escape_json)),
        ("{{new_ip}}"@, value_in(ip_value(event.new_ip), escape_json)),
        ("{{old_ip}}"@, value_in(ip_value(event.old_ip), escape_json)),
        ("{{provider}}"@, value_in(event.provider@, escape_json)),
        ("{{record_type}}"@, value_in(event.record_type@, escape_json)),
        ("{{status}}"@, value_in(event.status@, escape_json)),
        ("{{message}}"@, value_in(event.message@, escape_json)),
        ("{{timestamp}}"@, time_value(event.timestamp@, escape_json)),
        ("{{time}}"@, time_value(event.timestamp@, escape_json)),
        ("{{域名}}"@, value_in(domains_value(event), escape_json)),
        ("{{IP类型}}"@, value_in(ip_type_value(event), escape_json)),
        ("{{新IP}}"@, value_in(ip_value(event.new_ip), escape_json)),
        ("{{旧IP}}"@, value_in(ip_value(event.old_ip), escape_json)),
        ("{{服务商}}"@, value_in(event.provider@, escape_json)),
        ("{{记录类型}}"@, value_in(event.record_type@, escape_json)),
        ("{{状态}}"@, value_in(event.status@, escape_json)),
        ("{{消息}}"@, value_in(event.message@, escape_json)),
        ("{{更新时间}}"@, time_value(event.timestamp@, escape_json)),
    ]
}

/// The words for an answered call need no escaping.
proof fn lemma_answer_words(escape_json: bool)
    ensures
        value_text("是"@, escape_json) == "是"@,
        value_text("否"@, escape_json) == "否"@,
        value_text(seq![], escape_json) == Seq::<char>::empty(),
{
    reveal_strlit("是");
    reveal_strlit("否");
    law_ordinary_text_is_not_changed("是"@);
    law_ordinary_text_is_not_changed("否"@);
    assert(escaped(seq![]) =~= seq![]);
}

/// Filling replaces one placeholder after the other: with one more, that one is replaced in what
/// the others made of the template, their values included.
pub proof fn law_filling_is_replacing_in_turn(
    template: Seq<char>,
    fillings: Seq<Filling>,
    placeholder: Seq<char>,
    value: Seq<char>,
)
    ensures
        filled(template, seq![]) == template,
        filled(template, fillings.push((placeholder, value))) == replaced(
            filled(template, fillings),
            placeholder,
            value,
        ),
{
    assert(fillings.push((placeholder, value)).drop_last() =~= fillings);
}

/// The placeholders of a text message are replaced one after the other, each by its value.
pub proof fn law_sms_values_are_filled_in_turn(
    template: Seq<char>,
    message: SmsMessage,
    escape_json: bool,
)
    ensures
        fills_placeholders(sms_values(message, escape_json)),
        sms_text(template, message, escape_json) == filled(
            template,
            sms_values(message, escape_json),
        ),
{
    let time = notification_time(message.timestamp@);
    lemma_sms_placeholders(message, time, escape_json);
    assert(sms_values(message, escape_json) =~= sms_fillings(message, time, escape_json));
}

/// The placeholders of a call are replaced one after the other, each by its value.
pub proof fn law_call_values_are_filled_in_turn(
    template: Seq<char>,
    call: CallRecord,
    escape_json: bool,
)
    ensures
        fills_placeholders(call_values(call, escape_json)),
        call_text(template, call, escape_json) == filled(template, call_values(call, escape_json)),
{
    let start_time = notification_time(call.start_time@);
    let end_time = optional_time(call.end_time);
    lemma_call_placeholders(call, start_time, end_time, escape_json);
    lemma_answer_words(escape_json);
    assert(call_values(call, escape_json) =~= call_fillings(
        call,
        start_time,
        end_time,
        escape_json,
    ));
}

/// The placeholders of a dynamic DNS event are replaced one after the other, each by its value.
/// A blank template stands for the default one.
pub proof fn law_ddns_values_are_filled_in_turn(
    template: Seq<char>,
    event: DdnsEvent,
    escape_json: bool,
)
    ensures
        fills_placeholders(ddns_values(event, escape_json)),
        ddns_text(template, event, escape_json) == filled(
            if !is_blank(template) {
                template
            } else if escape_json {
                DEFAULT_DDNS_JSON_TEMPLATE@
            } else {
                DEFAULT_DDNS_TEXT_TEMPLATE@
            },
            ddns_values(event, escape_json),
        ),
{
    let time = notification_time(event.timestamp@);
    lemma_ddns_placeholders(event, time, escape_json);
    assert(ddns_values(event, escape_json) =~= ddns_fillings(event, time, escape_json));
}

/// A time that is given goes in as it is given, wherever the time of the notification would.
pub proof fn law_given_times_are_filled_in(
    message: SmsMessage,
    call: CallRecord,
    event: DdnsEvent,
    time: Seq<char>,
    end_time: Seq<char>,
    escape_json: bool,
)
    ensures
        ({
            let value = value_in(time, escape_json);
            &&& sms_fillings(message, time, escape_json) == sms_values(message, escape_json).update(
                4,
                ("{{timestamp}}"@, value),
            ).update(8, ("{{time}}"@, value))
            &&& call_fillings(call, time, end_time, escape_json) == call_values(
                call,
                escape_json,
            ).update(5, ("{{start_time}}"@, value)).update(
                6,
                ("{{end_time}}"@, value_in(end_time, escape_json)),
            ).update(10, ("{{time}}"@, value))
            &&& ddns_fillings(event, time, escape_json) == ddns_values(event, escape_json).update(
                9,
                ("{{timestamp}}"@, value),
            ).update(10, ("{{time}}"@, value)).update(19, ("{{更新时间}}"@, value))
            &&& value_text(time, escape_json) == value
        }),
{
    lemma_answer_words(escape_json);
}

/// A part of a plain text is plain.
proof fn lemma_plain_subrange(text: Seq<char>, start: int, end: int)
    requires
        is_plain(text),
        0 <= start <= end <= text.len(),
    ensures
        is_plain(text.subrange(start, end)),
{
    let part = text.subrange(start, end);
    assert forall|i: int|
        #![trigger part[i]]
        0 <= i < part.len() - 1 implies !(part[i] == '{' && part[i + 1] == '{') by {
        assert(part[i] == text[start + i] && part[i + 1] == text[start + i + 1]);
    }
}

/// Two plain texts in a row are plain, unless braces meet.
proof fn lemma_plain_joined(a: Seq<char>, b: Seq<char>)
    requires
        is_plain(a),
        is_plain(b),
        a.len() > 0 && b.len() > 0 ==> a.last() != '{' || b[0] != '{',
    ensures
        is_plain(a + b),
{
    let text = a + b;
    assert forall|i: int|
        #![trigger text[i]]
        0 <= i < text.len() - 1 implies !(text[i] == '{' && text[i + 1] == '{') by {
        if i + 1 < a.len() {
            assert(text[i] == a[i] && text[i + 1] == a[i + 1]);
        } else if i + 1 == a.len() {
            assert(text[i] == a.last() && text[i + 1] == b[0]);
        } else {
            assert(text[i] == b[i - a.len()] && text[i + 1] == b[i - a.len() + 1]);
        }
    }
}

/// Escaping keeps a text plain, and its first brace first.
proof fn lemma_escaped_is_plain(text: Seq<char>)
    requires
        is_plain(text),
    ensures
        is_plain(escaped(text)),
        escaped(text).len() > 0 ==> text.len() > 0 && (escaped(text)[0] == '{' ==> text[0] == '{'),
    decreases text.len(),
{
    if text.len() > 0 {
        let head = escaped_char(text[0]);
        let rest = text.skip(1);
        assert(rest =~= text.subrange(1, text.len() as int));
        lemma_plain_subrange(text, 1, text.len() as int);
        lemma_escaped_is_plain(rest);
        if escaped(rest).len() > 0 && head.last() == '{' && escaped(rest)[0] == '{' {
            assert(text[0] == '{');
            assert(text[1] == rest[0]);
        }
        lemma_plain_joined(head, escaped(rest));
    }
}

/// A plain value goes plain into a template.
proof fn lemma_plain_value_text(value: Seq<char>, escape_json: bool)
    requires
        is_plain(value),
    ensures
        is_plain(value_text(value, escape_json)),
{
    lemma_escaped_is_plain(value);
}

/// A plain timestamp goes plain into a template.
proof fn lemma_plain_time_value(timestamp: Seq<char>, escape_json: bool)
    requires
        is_plain(timestamp),
    ensures
        is_plain(time_value(timestamp, escape_json)),
{
    let (start, end) = lemma_trimmed_is_a_subrange(timestamp);
    lemma_plain_subrange(timestamp, start, end);
    lemma_notification_time_is_a_time_or_the_text(timestamp);
    lemma_plain_value_text(notification_time(timestamp), escape_json);
}

/// A number is a plain text.
proof fn lemma_integer_text_is_plain(n: int)
    ensures
        is_plain(integer_text(n)),
{
    let digits = natural_text(if n < 0 {
        (-n) as nat
    } else {
        n as nat
    });
    if n < 0 {
        law_natural_text_reads_back((-n) as nat);
    } else {
        law_natural_text_reads_back(n as nat);
    }
    assert forall|i: int|
        #![trigger integer_text(n)[i]]
        0 <= i < integer_text(n).len() - 1 implies !(integer_text(n)[i] == '{' && integer_text(n)[i
        + 1] == '{') by {
        if n < 0 && i > 0 {
            assert(is_digit(digits[i - 1]));
        } else if n >= 0 {
            assert(is_digit(digits[i]));
        }
    }
}

/// Plain texts with commas between them are plain.
proof fn lemma_plain_list(parts: Seq<Seq<char>>)
    requires
        forall|i: int| 0 <= i < parts.len() ==> is_plain(#[trigger] parts[i]),
    ensures
        is_plain(joined(parts, ", "@)),
    decreases parts.len(),
{
    reveal_strlit(", ");
    if parts.len() > 1 {
        let before = parts.drop_last();
        assert forall|i: int| 0 <= i < before.len() implies is_plain(#[trigger] before[i]) by {
            assert(before[i] == parts[i]);
        }
        lemma_plain_list(before);
        assert(is_plain(", "@));
        lemma_plain_joined(joined(before, ", "@), ", "@);
        assert((joined(before, ", "@) + ", "@).last() == ' ');
        assert(is_plain(parts[parts.len() - 1]));
        lemma_plain_joined(joined(before, ", "@) + ", "@, parts.last());
    }
}

/// A placeholder of a text message gives its value where that is plain; the last one gives it
/// always.
proof fn lemma_sms_value(message: SmsMessage, escape_json: bool, k: int)
    requires
        0 <= k < 9,
        ({
            let time = notification_time(message.timestamp@);
            k == 8 || is_plain(sms_fillings(message, time, escape_json)[k].1)
        }),
    ensures
        ({
            let time = notification_time(message.timestamp@);
            let filling = sms_fillings(message, time, escape_json)[k];
            sms_text(filling.0, message, escape_json) == filling.1
        }),
{
    let time = notification_time(message.timestamp@);
    let fillings = sms_fillings(message, time, escape_json);
    lemma_sms_placeholders(message, time, escape_json);
    if k < 8 {
        lemma_plain_value(fillings, k);
    }
    lemma_lone_placeholder(fillings, k);
}

/// A placeholder of a call gives its value where that is plain; the last one gives it always.
proof fn lemma_call_value(call: CallRecord, escape_json: bool, k: int)
    requires
        0 <= k < 11,
        ({
            let start_time = notification_time(call.start_time@);
            let end_time = optional_time(call.end_time);
            k == 10 || is_plain(call_fillings(call, start_time, end_time, escape_json)[k].1)
        }),
    ensures
        ({
            let start_time = notification_time(call.start_time@);
            let end_time = optional_time(call.end_time);
            let filling = call_fillings(call, start_time, end_time, escape_json)[k];
            call_text(filling.0, call, escape_json) == filling.1
        }),
{
    let start_time = notification_time(call.start_time@);
    let end_time = optional_time(call.end_time);
    let fillings = call_fillings(call, start_time, end_time, escape_json);
    lemma_call_placeholders(call, start_time, end_time, escape_json);
    if k < 10 {
        lemma_plain_value(fillings, k);
    }
    lemma_lone_placeholder(fillings, k);
}

/// A placeholder of a dynamic DNS event gives its value where that is plain; the last one
/// gives it always.
proof fn lemma_ddns_value(event: DdnsEvent, escape_json: bool, k: int)
    requires
        0 <= k < 20,
        ({
            let time = notification_time(event.timestamp@);
            k == 19 || is_plain(ddns_fillings(event, time, escape_json)[k].1)
        }),
    ensures
        ({
            let time = notification_time(event.timestamp@);
            let filling = ddns_fillings(event, time, escape_json)[k];
            ddns_text(filling.0, event, escape_json) == filling.1
        }),
{
    let time = notification_time(event.timestamp@);
    let fillings = ddns_fillings(event, time, escape_json);
    lemma_ddns_placeholders(event, time, escape_json);
    assert(is_placeholder(fillings[k].0));
    lemma_placeholder_not_blank(fillings[k].0);
    if k < 19 {
        lemma_plain_value(fillings, k);
    }
    lemma_lone_placeholder(fillings, k);
}

/// The time placeholders give the time of the notification, shown in Beijing time: the last of
/// them always, the others unless the timestamp has two opening braces in a row.
pub proof fn law_time_placeholders_give_the_time(
    message: SmsMessage,
    call: CallRecord,
    event: DdnsEvent,
    escape_json: bool,
)
    ensures
        sms_text("{{time}}"@, message, escape_json) == time_value(message.timestamp@, escape_json),
        is_plain(message.timestamp@) ==> sms_text("{{timestamp}}"@, message, escape_json)
            == time_value(message.timestamp@, escape_json),
        call_text("{{time}}"@, call, escape_json) == time_value(call.start_time@, escape_json),
        is_plain(call.start_time@) ==> call_text("{{start_time}}"@, call, escape_json)
            == time_value(call.start_time@, escape_json),
        call.end_time matches Some(end_time) ==> (is_plain(end_time@) ==> call_text(
            "{{end_time}}"@,
            call,
            escape_json,
        ) == time_value(end_time@, escape_json)),
        call.end_time is None ==> call_text("{{end_time}}"@, call, escape_json).len() == 0,
        ddns_text("{{更新时间}}"@, event, escape_json) == time_value(event.timestamp@, escape_json),
        is_plain(event.timestamp@) ==> ddns_text("{{timestamp}}"@, event, escape_json)
            == time_value(event.timestamp@, escape_json),
        is_plain(event.timestamp@) ==> ddns_text("{{time}}"@, event, escape_json) == time_value(
            event.timestamp@,
            escape_json,
        ),
{
    lemma_sms_value(message, escape_json, 8);
    if is_plain(message.timestamp@) {
        lemma_plain_time_value(message.timestamp@, escape_json);
        lemma_sms_value(message, escape_json, 4);
    }
    lemma_call_value(call, escape_json, 10);
    if is_plain(call.start_time@) {
        lemma_plain_time_value(call.start_time@, escape_json);
        lemma_call_value(call, escape_json, 5);
    }
    match call.end_time {
        Some(end_time) => {
            if is_plain(end_time@) {
                lemma_plain_time_value(end_time@, escape_json);
                lemma_call_value(call, escape_json, 6);
            }
        },
        None => {
            assert(is_plain(value_text(seq![], escape_json)));
            lemma_call_value(call, escape_json, 6);
        },
    }
    lemma_ddns_value(event, escape_json, 19);
    if is_plain(event.timestamp@) {
        lemma_plain_time_value(event.timestamp@, escape_json);
        lemma_ddns_value(event, escape_json, 9);
        lemma_ddns_value(event, escape_json, 10);
    }
}

/// The two names of each value of a text message give the same: the sender is the phone number,
/// the message is the content, and the time is the timestamp. This takes values without two
/// opening braces in a row.
pub proof fn law_sms_aliases_agree(message: SmsMessage, escape_json: bool)
    requires
        is_plain(message.phone_number@),
        is_plain(message.content@),
        is_plain(message.timestamp@),
    ensures
        sms_text("{{sender}}"@, message, escape_json) == message.phone_number@,
        sms_text("{{phone_number}}"@, message, escape_json) == message.phone_number@,
        sms_text("{{message}}"@, message, escape_json) == value_in(
            message.content@,
            escape_json,
        ),
        sms_text("{{content}}"@, message, escape_json) == value_in(
            message.content@,
            escape_json,
        ),
        sms_text("{{time}}"@, message, escape_json) == time_value(message.timestamp@, escape_json),
        sms_text("{{timestamp}}"@, message, escape_json) == time_value(
            message.timestamp@,
            escape_json,
        ),
{
    lemma_plain_value_text(message.content@, escape_json);
    lemma_plain_time_value(message.timestamp@, escape_json);
    lemma_sms_value(message, escape_json, 1);
    lemma_sms_value(message, escape_json, 6);
    lemma_sms_value(message, escape_json, 2);
    lemma_sms_value(message, escape_json, 7);
    lemma_sms_value(message, escape_json, 4);
    lemma_sms_value(message, escape_json, 8);
}

/// The two names of the phone number and of the start of a call give the same. This takes
/// values without two opening braces in a row.
pub proof fn law_call_aliases_agree(call: CallRecord, escape_json: bool)
    requires
        is_plain(call.phone_number@),
        is_plain(call.start_time@),
    ensures
        call_text("{{caller}}"@, call, escape_json) == call.phone_number@,
        call_text("{{phone_number}}"@, call, escape_json) == call.phone_number@,
        call_text("{{time}}"@, call, escape_json) == time_value(call.start_time@, escape_json),
        call_text("{{start_time}}"@, call, escape_json) == time_value(
            call.start_time@,
            escape_json,
        ),
{
    lemma_plain_time_value(call.start_time@, escape_json);
    lemma_call_value(call, escape_json, 1);
    lemma_call_value(call, escape_json, 9);
    lemma_call_value(call, escape_json, 5);
    lemma_call_value(call, escape_json, 10);
}

/// The number of a text message is shown, and its direction and status as they are. For the
/// last two, this takes values without two opening braces in a row.
pub proof fn law_sms_facts_are_shown(message: SmsMessage, escape_json: bool)
    ensures
        sms_text("{{id}}"@, message, escape_json) == integer_text(message.id as int),
        is_plain(message.direction@) ==> sms_text("{{direction}}"@, message, escape_json)
            == message.direction@,
        is_plain(message.status@) ==> sms_text("{{status}}"@, message, escape_json)
            == message.status@,
{
    lemma_integer_text_is_plain(message.id as int);
    lemma_sms_value(message, escape_json, 0);
    if is_plain(message.direction@) {
        lemma_sms_value(message, escape_json, 3);
    }
    if is_plain(message.status@) {
        lemma_sms_value(message, escape_json, 5);
    }
}

/// Whatever the direction of a call, the template says in two ways whether it was answered; and
/// whether or not it was answered, the template says whether it came in. The number of the call
/// and its duration are shown, and the direction as it is. For the last one, this takes a
/// direction without two opening braces in a row.
pub proof fn law_call_facts_are_shown(call: CallRecord, escape_json: bool)
    ensures
        call_text("{{answered}}"@, call, escape_json) == (if call.answered {
            "是"@
        } else {
            "否"@
        }),
        call_text("{{answered_bool}}"@, call, escape_json) == (if call.answered {
            "true"@
        } else {
            "false"@
        }),
        call_text("{{direction_cn}}"@, call, escape_json) == (if call.direction@ == "incoming"@ {
            "来电"@
        } else {
            "去电"@
        }),
        call_text("{{id}}"@, call, escape_json) == integer_text(call.id as int),
        call_text("{{duration}}"@, call, escape_json) == integer_text(call.duration as int),
        is_plain(call.direction@) ==> call_text("{{direction}}"@, call, escape_json)
            == call.direction@,
{
    reveal_strlit("是");
    reveal_strlit("否");
    reveal_strlit("true");
    reveal_strlit("false");
    reveal_strlit("来电");
    reveal_strlit("去电");
    lemma_answer_words(escape_json);
    lemma_call_value(call, escape_json, 7);
    lemma_call_value(call, escape_json, 8);
    lemma_call_value(call, escape_json, 3);
    lemma_integer_text_is_plain(call.id as int);
    lemma_call_value(call, escape_json, 0);
    lemma_integer_text_is_plain(call.duration as int);
    lemma_call_value(call, escape_json, 4);
    if is_plain(call.direction@) {
        lemma_call_value(call, escape_json, 2);
    }
}

/// Whether no text of a dynamic DNS event has two opening braces in a row.
pub open spec fn is_plain_event(event: DdnsEvent) -> bool {
    &&& forall|i: int| 0 <= i < event.domains@.len() ==> is_plain((#[trigger] event.domains@[i])@)
    &&& is_plain(event.record_type@)
    &&& event.old_ip matches Some(ip) ==> is_plain(ip@)
    &&& event.new_ip matches Some(ip) ==> is_plain(ip@)
    &&& is_plain(event.provider@)
    &&& is_plain(event.status@)
    &&& is_plain(event.message@)
    &&& is_plain(event.timestamp@)
}

/// Every value of a plain event is plain.
proof fn lemma_plain_event_values(event: DdnsEvent, escape_json: bool)
    requires
        is_plain_event(event),
    ensures
        is_plain(value_text(domains_text(event.domains@), escape_json)),
        is_plain(value_text(ip_type_text(event.record_type@), escape_json)),
        is_plain(value_text(ip_text(event.new_ip), escape_json)),
        is_plain(value_text(ip_text(event.old_ip), escape_json)),
{
    reveal_strlit("-");
    reveal_strlit("IPv4");
    reveal_strlit("IPv6");
    assert(is_plain("-"@));
    assert(is_plain("IPv4"@)) by {
        assert forall|i: int|
            #![trigger "IPv4"@[i]]
            0 <= i < "IPv4"@.len() - 1 implies !("IPv4"@[i] == '{' && "IPv4"@[i + 1] == '{') by {
            assert(i == 0 || i == 1 || i == 2);
        }
    }
    assert(is_plain("IPv6"@)) by {
        assert forall|i: int|
            #![trigger "IPv6"@[i]]
            0 <= i < "IPv6"@.len() - 1 implies !("IPv6"@[i] == '{' && "IPv6"@[i + 1] == '{') by {
            assert(i == 0 || i == 1 || i == 2);
        }
    }
    let domains = views(event.domains@);
    assert forall|i: int| 0 <= i < domains.len() implies is_plain(#[trigger] domains[i]) by {
        assert(domains[i] == event.domains@[i]@);
    }
    lemma_plain_list(domains);
    lemma_plain_value_text(domains_text(event.domains@), escape_json);
    lemma_plain_value_text(ip_type_text(event.record_type@), escape_json);
    lemma_plain_value_text(ip_text(event.new_ip), escape_json);
    lemma_plain_value_text(ip_text(event.old_ip), escape_json);
}

/// The names of each value of a dynamic DNS event give the same, the Chinese ones included.
/// This takes values without two opening braces in a row.
pub proof fn law_ddns_aliases_agree(event: DdnsEvent, escape_json: bool)
    requires
        is_plain_event(event),
    ensures
        ({
            let domains = value_in(domains_value(event), escape_json);
            let ip_type = value_in(ip_type_value(event), escape_json);
            let new_ip = value_in(ip_value(event.new_ip), escape_json);
            let old_ip = value_in(ip_value(event.old_ip), escape_json);
            let provider = value_in(event.provider@, escape_json);
            let record_type = value_in(event.record_type@, escape_json);
            let status = value_in(event.status@, escape_json);
            let message = value_in(event.message@, escape_json);
            let time = time_value(event.timestamp@, escape_json);
            &&& ddns_text("{{domains}}"@, event, escape_json) == domains
            &&& ddns_text("{{domain}}"@, event, escape_json) == domains
            &&& ddns_text("{{域名}}"@, event, escape_json) == domains
            &&& ddns_text("{{ip_type}}"@, event, escape_json) == ip_type
            &&& ddns_text("{{IP类型}}"@, event, escape_json) == ip_type
            &&& ddns_text("{{new_ip}}"@, event, escape_json) == new_ip
            &&& ddns_text("{{新IP}}"@, event, escape_json) == new_ip
            &&& ddns_text("{{old_ip}}"@, event, escape_json) == old_ip
            &&& ddns_text("{{旧IP}}"@, event, escape_json) == old_ip
            &&& ddns_text("{{provider}}"@, event, escape_json) == provider
            &&& ddns_text("{{服务商}}"@, event, escape_json) == provider
            &&& ddns_text("{{record_type}}"@, event, escape_json) == record_type
            &&& ddns_text("{{记录类型}}"@, event, escape_json) == record_type
            &&& ddns_text("{{status}}"@, event, escape_json) == status
            &&& ddns_text("{{状态}}"@, event, escape_json) == status
            &&& ddns_text("{{message}}"@, event, escape_json) == message
            &&& ddns_text("{{消息}}"@, event, escape_json) == message
            &&& ddns_text("{{timestamp}}"@, event, escape_json) == time
            &&& ddns_text("{{time}}"@, event, escape_json) == time
            &&& ddns_text("{{更新时间}}"@, event, escape_json) == time
        }),
{
    lemma_plain_event_values(event, escape_json);
    lemma_plain_value_text(event.provider@, escape_json);
    lemma_plain_value_text(event.record_type@, escape_json);
    lemma_plain_value_text(event.status@, escape_json);
    lemma_plain_value_text(event.message@, escape_json);
    lemma_plain_time_value(event.timestamp@, escape_json);
    lemma_ddns_value(event, escape_json, 0);
    lemma_ddns_value(event, escape_json, 1);
    lemma_ddns_value(event, escape_json, 2);
    lemma_ddns_value(event, escape_json, 3);
    lemma_ddns_value(event, escape_json, 4);
    lemma_ddns_value(event, escape_json, 5);
    lemma_ddns_value(event, escape_json, 6);
    lemma_ddns_value(event, escape_json, 7);
    lemma_ddns_value(event, escape_json, 8);
    lemma_ddns_value(event, escape_json, 9);
    lemma_ddns_value(event, escape_json, 10);
    lemma_ddns_value(event, escape_json, 11);
    lemma_ddns_value(event, escape_json, 12);
    lemma_ddns_value(event, escape_json, 13);
    lemma_ddns_value(event, escape_json, 14);
    lemma_ddns_value(event, escape_json, 15);
    lemma_ddns_value(event, escape_json, 16);
    lemma_ddns_value(event, escape_json, 17);
    lemma_ddns_value(event, escape_json, 18);
    lemma_ddns_value(event, escape_json, 19);
}

/// A time without a character that is escaped goes into a JSON template as into any other.
pub proof fn law_flag_leaves_ordinary_times(timestamp: Seq<char>)
    requires
        is_ordinary(timestamp),
    ensures
        time_value(timestamp, true) == notification_time(timestamp),
        time_value(timestamp, false) == notification_time(timestamp),
{
    let time = notification_time(timestamp);
    let (start, end) = lemma_trimmed_is_a_subrange(timestamp);
    lemma_notification_time_is_a_time_or_the_text(timestamp);
    assert forall|i: int| 0 <= i < time.len() implies escaped_char(#[trigger] time[i]) == seq![
        time[i],
    ] by {
        if time == trimmed(timestamp) {
            assert(time[i] == timestamp[start + i]);
        }
    }
    law_ordinary_text_is_not_changed(time);
}

/// A call whose times have no character that is escaped goes into a JSON template as into any
/// other: its phone number and direction are never escaped.
pub proof fn law_flag_leaves_calls_with_ordinary_times(template: Seq<char>, call: CallRecord)
    requires
        is_ordinary(call.start_time@),
        call.end_time matches Some(end_time) ==> is_ordinary(end_time@),
    ensures
        call_text(template, call, true) == call_text(template, call, false),
{
    let start_time = notification_time(call.start_time@);
    let end_time = optional_time(call.end_time);
    law_flag_leaves_ordinary_times(call.start_time@);
    match call.end_time {
        Some(end_time) => law_flag_leaves_ordinary_times(end_time@),
        None => assert(escaped(seq![]) =~= seq![]),
    }
    reveal_strlit("是");
    reveal_strlit("否");
    law_ordinary_text_is_not_changed("是"@);
    law_ordinary_text_is_not_changed("否"@);
    assert(call_fillings(call, start_time, end_time, true) =~= call_fillings(
        call,
        start_time,
        end_time,
        false,
    ));
}

/// No placeholder occurs in a value without two braces in a row.
proof fn lemma_plain_value(fillings: Seq<Filling>, k: int)
    requires
        fills_placeholders(fillings),
        is_plain(fillings[k].1),
    ensures
        forall|j: int|
            0 <= j < fillings.len() ==> !occurs((#[trigger] fillings[j]).0, fillings[k].1),
{
    assert forall|j: int| 0 <= j < fillings.len() implies !occurs(
        (#[trigger] fillings[j]).0,
        fillings[k].1,
    ) by {
        lemma_braces_needed(fillings[j].0, fillings[k].1);
    }
}

/// A piece of a template.
pub enum Piece {
    /// A text of its own.
    Text(Seq<char>),
    /// The placeholder with this position among those that are filled.
    Hole(int),
}

/// Whether every hole of a template has a filling.
pub open spec fn holes_are_filled(pieces: Seq<Piece>, fillings: Seq<Filling>) -> bool {
    forall|i: int|
        0 <= i < pieces.len() ==> ((#[trigger] pieces[i]) matches Piece::Hole(k) ==> 0 <= k
            < fillings.len())
}

/// A piece with the first `count` placeholders replaced.
pub open spec fn piece_text(piece: Piece, fillings: Seq<Filling>, count: int) -> Seq<char> {
    match piece {
        Piece::Text(text) => text,
        Piece::Hole(k) => if k < count {
            fillings[k].1
        } else {
            fillings[k].0
        },
    }
}

/// Pieces in a row with the first `count` placeholders replaced.
pub open spec fn pieces_text(pieces: Seq<Piece>, fillings: Seq<Filling>, count: int) -> Seq<char>
    decreases pieces.len(),
{
    if pieces.len() == 0 {
        seq![]
    } else {
        piece_text(pieces[0], fillings, count) + pieces_text(pieces.skip(1), fillings, count)
    }
}

/// The template that is made of some pieces.
pub open spec fn template_of(pieces: Seq<Piece>, fillings: Seq<Filling>) -> Seq<char> {
    pieces_text(pieces, fillings, 0)
}

/// The pieces of a template with each placeholder replaced by what stands for it.
pub open spec fn substituted(pieces: Seq<Piece>, fillings: Seq<Filling>) -> Seq<char> {
    pieces_text(pieces, fillings, fillings.len() as int)
}

/// Whether each placeholder is gone once it was replaced: none comes in with a text of the
/// template, or with a value that was put in up to then.
pub open spec fn placeholders_go(pieces: Seq<Piece>, fillings: Seq<Filling>) -> bool {
    forall|j: int|
        0 <= j < fillings.len() ==> !occurs(
            (#[trigger] fillings[j]).0,
            pieces_text(pieces, fillings, j + 1),
        )
}

/// The text before the first placeholder that is not replaced yet.
spec fn lead(pieces: Seq<Piece>, fillings: Seq<Filling>, count: int) -> Seq<char>
    decreases pieces.len(),
{
    if pieces.len() == 0 || (pieces[0] matches Piece::Hole(k) && k >= count) {
        seq![]
    } else {
        piece_text(pieces[0], fillings, count) + lead(pieces.skip(1), fillings, count)
    }
}

/// The lead stands at the beginning, also once one more placeholder is replaced; behind it
/// there is nothing or a placeholder.
proof fn lemma_lead(pieces: Seq<Piece>, fillings: Seq<Filling>, count: int)
    requires
        fills_placeholders(fillings),
        holes_are_filled(pieces, fillings),
        0 <= count < fillings.len(),
    ensures
        ({
            let lead = lead(pieces, fillings, count);
            let text = pieces_text(pieces, fillings, count);
            let end = pieces_text(pieces, fillings, count + 1);
            let next = lead.len() as int;
            &&& begins_with(text, lead)
            &&& begins_with(end, lead)
            &&& text.len() > next ==> text.len() > next + 1 && text[next] == '{' && text[next + 1]
                == '{'
        }),
    decreases pieces.len(),
{
    let all = lead(pieces, fillings, count);
    let text = pieces_text(pieces, fillings, count);
    let end = pieces_text(pieces, fillings, count + 1);
    if pieces.len() == 0 {
        assert(text.take(0) =~= all);
        assert(end.take(0) =~= all);
    } else if pieces[0] matches Piece::Hole(k) && k >= count {
        assert(text.take(0) =~= all);
        assert(end.take(0) =~= all);
        assert(is_placeholder(fillings[pieces[0]->Hole_0].0));
    } else {
        let rest = pieces.skip(1);
        assert(holes_are_filled(rest, fillings)) by {
            assert forall|i: int| 0 <= i < rest.len() implies ((
            #[trigger] rest[i]) matches Piece::Hole(k) ==> 0 <= k < fillings.len()) by {
                assert(rest[i] == pieces[i + 1]);
            }
        }
        assert(pieces[0] matches Piece::Hole(k) ==> 0 <= k < fillings.len());
        lemma_lead(rest, fillings, count);
        let first = piece_text(pieces[0], fillings, count);
        assert(first == piece_text(pieces[0], fillings, count + 1));
        let rest_lead = lead(rest, fillings, count);
        let rest_text = pieces_text(rest, fillings, count);
        let rest_end = pieces_text(rest, fillings, count + 1);
        assert(text.take(all.len() as int) =~= first + rest_text.take(rest_lead.len() as int));
        assert(end.take(all.len() as int) =~= first + rest_end.take(rest_lead.len() as int));
    }
}

/// A placeholder begins nowhere in the lead, unless it occurs once one more is replaced.
proof fn lemma_no_match_in_lead(
    pieces: Seq<Piece>,
    fillings: Seq<Filling>,
    count: int,
    placeholder: Seq<char>,
    i: int,
)
    requires
        fills_placeholders(fillings),
        holes_are_filled(pieces, fillings),
        0 <= count < fillings.len(),
        is_placeholder(placeholder),
        !occurs(placeholder, pieces_text(pieces, fillings, count + 1)),
        0 <= i < lead(pieces, fillings, count).len(),
    ensures
        !begins_with(pieces_text(pieces, fillings, count).skip(i), placeholder),
{
    lemma_lead(pieces, fillings, count);
    let lead = lead(pieces, fillings, count);
    let text = pieces_text(pieces, fillings, count);
    let end = pieces_text(pieces, fillings, count + 1);
    let n = placeholder.len() as int;
    let behind = text.skip(i);
    if begins_with(behind, placeholder) {
        assert forall|j: int| 0 <= j < n implies #[trigger] placeholder[j] == text[i + j] by {
            assert(behind.take(n)[j] == text[i + j]);
        }
        if i + n <= lead.len() {
            assert forall|j: int| 0 <= j < n implies #[trigger] placeholder[j] == end[i + j] by {
                assert(lead[i + j] == text.take(lead.len() as int)[i + j]);
                assert(lead[i + j] == end.take(lead.len() as int)[i + j]);
            }
            assert(end.subrange(i, i + n) =~= placeholder);
        } else {
            let p = lead.len() - i;
            assert(placeholder[p] == '{');
            assert(p == 1);
            assert(placeholder[2] == text[i + 2]);
        }
    }
}

/// A placeholder begins within another one only if it is the same.
proof fn lemma_no_match_in_placeholder(
    other: Seq<char>,
    rest: Seq<char>,
    placeholder: Seq<char>,
    i: int,
)
    requires
        is_placeholder(other),
        is_placeholder(placeholder),
        placeholder != other,
        0 <= i < other.len(),
    ensures
        !begins_with((other + rest).skip(i), placeholder),
{
    let text = other + rest;
    let n = placeholder.len() as int;
    let behind = text.skip(i);
    if begins_with(behind, placeholder) {
        assert forall|j: int| 0 <= j < n implies #[trigger] placeholder[j] == text[i + j] by {
            assert(behind.take(n)[j] == text[i + j]);
        }
        assert(placeholder[0] == text[i] && placeholder[1] == text[i + 1]);
        assert(text[i] == other[i]);
        if i == 0 {
            let m = other.len() as int;
            if n < m {
                assert(placeholder[n - 2] == other[n - 2]);
            } else if n > m {
                assert(placeholder[m - 2] == other[m - 2]);
            } else {
                assert forall|j: int| 0 <= j < n implies placeholder[j] == other[j] by {
                    assert(placeholder[j] == text[j]);
                }
                assert(placeholder =~= other);
            }
        } else if i == 1 {
            assert(text[2] == other[2]);
        }
    }
}

/// Replacing leaves a beginning in which no match begins.
pub(crate) proof fn lemma_replaced_behind(
    first: Seq<char>,
    rest: Seq<char>,
    from: Seq<char>,
    to: Seq<char>,
)
    requires
        from.len() > 0,
        forall|i: int|
            0 <= i < first.len() ==> !begins_with(#[trigger] (first + rest).skip(i), from),
    ensures
        replaced(first + rest, from, to) == first + replaced(rest, from, to),
    decreases first.len(),
{
    let text = first + rest;
    if first.len() == 0 {
        assert(text =~= rest);
        assert(first + replaced(rest, from, to) =~= replaced(rest, from, to));
    } else {
        let shorter = first.skip(1);
        assert(text.skip(0) =~= text);
        assert(text.skip(1) =~= shorter + rest);
        assert forall|i: int| 0 <= i < shorter.len() implies !begins_with(
            #[trigger] (shorter + rest).skip(i),
            from,
        ) by {
            assert((shorter + rest).skip(i) =~= text.skip(i + 1));
        }
        lemma_replaced_behind(shorter, rest, from, to);
        assert(!begins_with(text.skip(0), from));
        assert(replaced(text, from, to) =~= first + replaced(rest, from, to));
    }
}

/// Replacing one more placeholder.
proof fn lemma_one_more_replaced(pieces: Seq<Piece>, fillings: Seq<Filling>, count: int)
    requires
        fills_placeholders(fillings),
        holes_are_filled(pieces, fillings),
        0 <= count < fillings.len(),
        !occurs(fillings[count].0, pieces_text(pieces, fillings, count + 1)),
    ensures
        replaced(pieces_text(pieces, fillings, count), fillings[count].0, fillings[count].1)
            == pieces_text(pieces, fillings, count + 1),
    decreases pieces.len(),
{
    let (placeholder, value) = fillings[count];
    assert(is_placeholder(placeholder));
    if pieces.len() > 0 {
        let rest = pieces.skip(1);
        let first = piece_text(pieces[0], fillings, count);
        let rest_text = pieces_text(rest, fillings, count);
        let end = pieces_text(pieces, fillings, count + 1);
        let rest_end = pieces_text(rest, fillings, count + 1);
        let text = first + rest_text;
        assert(holes_are_filled(rest, fillings)) by {
            assert forall|i: int| 0 <= i < rest.len() implies ((
            #[trigger] rest[i]) matches Piece::Hole(k) ==> 0 <= k < fillings.len()) by {
                assert(rest[i] == pieces[i + 1]);
            }
        }
        assert(!occurs(placeholder, rest_end)) by {
            let n = placeholder.len() as int;
            let shift = piece_text(pieces[0], fillings, count + 1).len() as int;
            assert forall|i: int| 0 <= i <= rest_end.len() - n implies #[trigger] rest_end.subrange(
                i,
                i + n,
            ) != placeholder by {
                assert(end.subrange(shift + i, shift + i + n) =~= rest_end.subrange(i, i + n));
            }
        }
        lemma_one_more_replaced(rest, fillings, count);
        assert(pieces[0] matches Piece::Hole(k) ==> 0 <= k < fillings.len());
        match pieces[0] {
            Piece::Hole(k) if k == count => {
                assert(text.take(placeholder.len() as int) =~= placeholder);
                assert(text.skip(placeholder.len() as int) =~= rest_text);
            },
            Piece::Hole(k) if k > count => {
                assert(is_placeholder(fillings[k].0));
                assert(fillings[count].0 != fillings[k].0);
                assert forall|i: int| 0 <= i < first.len() implies !begins_with(
                    #[trigger] text.skip(i),
                    placeholder,
                ) by {
                    lemma_no_match_in_placeholder(first, rest_text, placeholder, i);
                }
                lemma_replaced_behind(first, rest_text, placeholder, value);
            },
            _ => {
                assert forall|i: int| 0 <= i < first.len() implies !begins_with(
                    #[trigger] text.skip(i),
                    placeholder,
                ) by {
                    lemma_no_match_in_lead(pieces, fillings, count, placeholder, i);
                }
                lemma_replaced_behind(first, rest_text, placeholder, value);
            },
        }
    }
}

proof fn lemma_first_replaced(pieces: Seq<Piece>, fillings: Seq<Filling>, count: int)
    requires
        fills_placeholders(fillings),
        holes_are_filled(pieces, fillings),
        0 <= count <= fillings.len(),
        placeholders_go(pieces, fillings),
    ensures
        filled(template_of(pieces, fillings), fillings.take(count)) == pieces_text(
            pieces,
            fillings,
            count,
        ),
    decreases count,
{
    if count > 0 {
        lemma_first_replaced(pieces, fillings, count - 1);
        assert(!occurs(fillings[count - 1].0, pieces_text(pieces, fillings, count - 1 + 1)));
        lemma_one_more_replaced(pieces, fillings, count - 1);
        assert(fillings.take(count).drop_last() =~= fillings.take(count - 1));
        assert(fillings.take(count).last() == fillings[count - 1]);
    }
}

/// Filling one placeholder after the other is replacing each by what stands for it, where
/// no placeholder comes in with a value.
pub(crate) proof fn lemma_filled_is_substituted(pieces: Seq<Piece>, fillings: Seq<Filling>)
    requires
        fills_placeholders(fillings),
        holes_are_filled(pieces, fillings),
        placeholders_go(pieces, fillings),
    ensures
        filled(template_of(pieces, fillings), fillings) == substituted(pieces, fillings),
{
    lemma_first_replaced(pieces, fillings, fillings.len() as int);
    assert(fillings.take(fillings.len() as int) =~= fillings);
}

/// Whether a text has no opening brace.
pub open spec fn is_braceless(text: Seq<char>) -> bool {
    forall|i: int| 0 <= i < text.len() ==> (#[trigger] text[i]) != '{'
}

/// Whether the texts of a template have no opening brace.
pub open spec fn has_braceless_texts(pieces: Seq<Piece>) -> bool {
    forall|i: int|
        0 <= i < pieces.len() ==> ((#[trigger] pieces[i]) matches Piece::Text(text) ==> is_braceless(
            text,
        ))
}

/// Whether the values that are filled in have no opening brace.
pub open spec fn has_braceless_values(fillings: Seq<Filling>) -> bool {
    forall|i: int| 0 <= i < fillings.len() ==> is_braceless((#[trigger] fillings[i]).1)
}

/// Where braces come from placeholders alone, one that was replaced begins nowhere.
proof fn lemma_replaced_begins_nowhere(
    pieces: Seq<Piece>,
    fillings: Seq<Filling>,
    j: int,
    i: int,
)
    requires
        fills_placeholders(fillings),
        holes_are_filled(pieces, fillings),
        has_braceless_texts(pieces),
        has_braceless_values(fillings),
        0 <= j < fillings.len(),
        0 <= i < pieces_text(pieces, fillings, j + 1).len(),
    ensures
        !begins_with(pieces_text(pieces, fillings, j + 1).skip(i), fillings[j].0),
    decreases pieces.len(),
{
    let placeholder = fillings[j].0;
    let first = piece_text(pieces[0], fillings, j + 1);
    let rest = pieces.skip(1);
    let rest_text = pieces_text(rest, fillings, j + 1);
    let text = first + rest_text;
    assert(is_placeholder(placeholder));
    assert(text == pieces_text(pieces, fillings, j + 1));
    if i < first.len() {
        assert(pieces[0] matches Piece::Hole(k) ==> 0 <= k < fillings.len());
        if pieces[0] is Hole && pieces[0]->Hole_0 > j {
            assert(is_placeholder(fillings[pieces[0]->Hole_0].0));
            assert(fillings[j].0 != fillings[pieces[0]->Hole_0].0);
            lemma_no_match_in_placeholder(first, rest_text, placeholder, i);
        } else {
            assert(pieces[0] matches Piece::Text(text) ==> is_braceless(text));
            assert(pieces[0] is Hole ==> is_braceless(fillings[pieces[0]->Hole_0].1));
            assert(text[i] == first[i]);
            if begins_with(text.skip(i), placeholder) {
                assert(text.skip(i).take(placeholder.len() as int)[0] == text[i]);
            }
        }
    } else {
        assert(holes_are_filled(rest, fillings)) by {
            assert forall|n: int| 0 <= n < rest.len() implies ((
            #[trigger] rest[n]) matches Piece::Hole(k) ==> 0 <= k < fillings.len()) by {
                assert(rest[n] == pieces[n + 1]);
            }
        }
        assert(has_braceless_texts(rest)) by {
            assert forall|n: int| 0 <= n < rest.len() implies ((
            #[trigger] rest[n]) matches Piece::Text(text) ==> is_braceless(text)) by {
                assert(rest[n] == pieces[n + 1]);
            }
        }
        lemma_replaced_begins_nowhere(rest, fillings, j, i - first.len());
        assert(text.skip(i) =~= rest_text.skip(i - first.len()));
    }
}

/// Where braces come from placeholders alone, each placeholder goes once it was replaced.
pub proof fn law_placeholders_go_where_nothing_else_has_braces(
    pieces: Seq<Piece>,
    fillings: Seq<Filling>,
)
    requires
        fills_placeholders(fillings),
        holes_are_filled(pieces, fillings),
        has_braceless_texts(pieces),
        has_braceless_values(fillings),
    ensures
        placeholders_go(pieces, fillings),
{
    assert forall|j: int| 0 <= j < fillings.len() implies !occurs(
        (#[trigger] fillings[j]).0,
        pieces_text(pieces, fillings, j + 1),
    ) by {
        let text = pieces_text(pieces, fillings, j + 1);
        let placeholder = fillings[j].0;
        assert(is_placeholder(placeholder));
        assert forall|i: int| 0 <= i <= text.len() - placeholder.len() implies #[trigger] text.subrange(
            i,
            i + placeholder.len(),
        ) != placeholder by {
            lemma_replaced_begins_nowhere(pieces, fillings, j, i);
            assert(text.skip(i).take(placeholder.len() as int) =~= text.subrange(
                i,
                i + placeholder.len(),
            ));
        }
    }
}

/// A template of a text message gives its own text with each placeholder replaced by what
/// stands for it, wherever and however often it occurs. This takes placeholders that go once
/// they were replaced: one that was received in the message would be replaced in its turn.
pub proof fn law_sms_template_is_substituted(
    pieces: Seq<Piece>,
    message: SmsMessage,
    escape_json: bool,
)
    requires
        holes_are_filled(pieces, sms_values(message, escape_json)),
        placeholders_go(pieces, sms_values(message, escape_json)),
    ensures
        ({
            let values = sms_values(message, escape_json);
            sms_text(template_of(pieces, values), message, escape_json) == substituted(
                pieces,
                values,
            )
        }),
{
    let values = sms_values(message, escape_json);
    law_sms_values_are_filled_in_turn(template_of(pieces, values), message, escape_json);
    lemma_filled_is_substituted(pieces, values);
}

/// A template of a call gives its own text with each placeholder replaced by what stands for
/// it, wherever and however often it occurs. This takes placeholders that go once they were
/// replaced.
pub proof fn law_call_template_is_substituted(
    pieces: Seq<Piece>,
    call: CallRecord,
    escape_json: bool,
)
    requires
        holes_are_filled(pieces, call_values(call, escape_json)),
        placeholders_go(pieces, call_values(call, escape_json)),
    ensures
        ({
            let values = call_values(call, escape_json);
            call_text(template_of(pieces, values), call, escape_json) == substituted(pieces, values)
        }),
{
    let values = call_values(call, escape_json);
    law_call_values_are_filled_in_turn(template_of(pieces, values), call, escape_json);
    lemma_filled_is_substituted(pieces, values);
}

/// A template of a dynamic DNS event, unless it is blank, gives its own text with each
/// placeholder replaced by what stands for it, wherever and however often it occurs. This
/// takes placeholders that go once they were replaced.
pub proof fn law_ddns_template_is_substituted(
    pieces: Seq<Piece>,
    event: DdnsEvent,
    escape_json: bool,
)
    requires
        holes_are_filled(pieces, ddns_values(event, escape_json)),
        placeholders_go(pieces, ddns_values(event, escape_json)),
        !is_blank(template_of(pieces, ddns_values(event, escape_json))),
    ensures
        ({
            let values = ddns_values(event, escape_json);
            ddns_text(template_of(pieces, values), event, escape_json) == substituted(
                pieces,
                values,
            )
        }),
{
    let values = ddns_values(event, escape_json);
    law_ddns_values_are_filled_in_turn(template_of(pieces, values), event, escape_json);
    lemma_filled_is_substituted(pieces, values);
}

} // verus!
