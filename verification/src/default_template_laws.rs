//! What holds of the default templates of dynamic DNS events.
use crate::clock::{lemma_notification_time_is_a_time_or_the_text, notification_time};
use crate::encoding::{
    escaped, escaped_char, is_ordinary, law_ordinary_text_is_not_changed, lemma_escaped_splits,
};
use crate::json::{no_entries, one_text, read_json, Json};
use crate::json_layout::{
    is_proper, is_proper_member, is_string_body, law_layout_text_writes_its_value, layout_json,
    layout_then, lemma_one_more_char, member_then, members_then, string_text, with_members, Layout,
    Member,
};
use crate::models::DdnsEvent;
use crate::template_laws::{
    ddns_values, domains_value, has_braceless_texts, has_braceless_values, holes_are_filled,
    ip_type_value, ip_value, is_braceless, is_plain, law_ddns_values_are_filled_in_turn,
    law_placeholders_go_where_nothing_else_has_braces, lemma_braces_needed,
    lemma_fewer_placeholders, lemma_filled_is_substituted, lemma_replaced_behind,
    lemma_replaced_nowhere, pieces_text, substituted, template_of, Piece,
};
use crate::templates::{
    ddns_fillings, ddns_text, domains_text, filled, fills_placeholders, ip_text, ip_type_text,
    is_name_char, is_placeholder, lemma_ddns_placeholders, Filling, DEFAULT_DDNS_JSON_TEMPLATE,
    DEFAULT_DDNS_TEXT_TEMPLATE,
};
use crate::text::{
    begins_with, is_blank, joined, lemma_trimmed_is_a_subrange, replaced, trimmed, views,
};
use vstd::prelude::*;

verus! {

/// What stands before the text in the default JSON template.
pub open spec fn json_before() -> Seq<char> {
    "{\n  \"msg_type\": \"text\",\n  \"content\": {\n    \"text\": \""@
}

/// What stands behind the text in the default JSON template.
pub open spec fn json_after() -> Seq<char> {
    "\"\n  }\n}"@
}

/// How a text of one character is escaped.
proof fn lemma_escaped_single(c: char)
    ensures
        escaped(seq![c]) == escaped_char(c),
{
    let rest = seq![c].skip(1);
    assert(rest.len() == 0);
    assert(escaped(rest) =~= Seq::<char>::empty());
    assert(escaped_char(c) + Seq::<char>::empty() =~= escaped_char(c));
}

/// A placeholder is escaped as it stands.
proof fn lemma_placeholder_is_ordinary(placeholder: Seq<char>)
    requires
        is_placeholder(placeholder),
    ensures
        is_ordinary(placeholder),
{
    assert forall|i: int| 0 <= i < placeholder.len() implies escaped_char(
        #[trigger] placeholder[i],
    ) == seq![placeholder[i]] by {
        if 2 <= i < placeholder.len() - 2 {
            assert(is_name_char(placeholder[i]));
        }
    }
}

/// An escaped text begins with a text without characters that are escaped exactly if the text
/// itself does.
proof fn lemma_escaped_begins(s: Seq<char>, prefix: Seq<char>)
    requires
        is_ordinary(prefix),
    ensures
        begins_with(escaped(s), prefix) == begins_with(s, prefix),
        begins_with(s, prefix) ==> escaped(s).skip(prefix.len() as int) == escaped(
            s.skip(prefix.len() as int),
        ),
{
    let n = prefix.len() as int;
    if begins_with(s, prefix) {
        assert(s =~= prefix + s.skip(n));
        lemma_escaped_splits(prefix, s.skip(n));
        law_ordinary_text_is_not_changed(prefix);
        assert(escaped(s).take(n) =~= prefix);
        assert(escaped(s).skip(n) =~= escaped(s.skip(n)));
    }
    if begins_with(escaped(s), prefix) {
        lemma_begins_if_escaped_does(s, prefix);
    }
}

proof fn lemma_begins_if_escaped_does(s: Seq<char>, prefix: Seq<char>)
    requires
        is_ordinary(prefix),
        begins_with(escaped(s), prefix),
    ensures
        begins_with(s, prefix),
    decreases prefix.len(),
{
    if prefix.len() == 0 {
        assert(s.take(0) =~= prefix);
    } else {
        let n = prefix.len() as int;
        let head = escaped_char(s[0]);
        let rest = prefix.skip(1);
        assert(escaped(s).take(n)[0] == prefix[0]);
        assert(escaped(s)[0] == head[0]);
        assert(escaped_char(prefix[0]) == seq![prefix[0]]);
        assert(escaped_char('\\').len() == 2);
        assert(head[0] != '\\');
        assert(head =~= seq![s[0]]);
        assert(escaped(s.skip(1)) =~= escaped(s).skip(1));
        assert(escaped(s.skip(1)).take(n - 1) =~= escaped(s).take(n).skip(1));
        assert forall|i: int| 0 <= i < rest.len() implies escaped_char(#[trigger] rest[i])
            == seq![rest[i]] by {
            assert(rest[i] == prefix[i + 1]);
        }
        lemma_begins_if_escaped_does(s.skip(1), rest);
        assert(s.take(n) =~= seq![s[0]] + s.skip(1).take(n - 1));
        assert(prefix =~= seq![prefix[0]] + rest);
    }
}

/// To replace a placeholder and then escape is to escape and then replace it by the escaped
/// value.
proof fn lemma_replaced_then_escaped(s: Seq<char>, placeholder: Seq<char>, value: Seq<char>)
    requires
        is_placeholder(placeholder),
    ensures
        replaced(escaped(s), placeholder, escaped(value)) == escaped(
            replaced(s, placeholder, value),
        ),
    decreases s.len(),
{
    lemma_placeholder_is_ordinary(placeholder);
    if s.len() > 0 {
        let n = placeholder.len() as int;
        let head = escaped_char(s[0]);
        let to = escaped(value);
        lemma_escaped_begins(s, placeholder);
        if begins_with(s, placeholder) {
            lemma_replaced_then_escaped(s.skip(n), placeholder, value);
            lemma_escaped_splits(value, replaced(s.skip(n), placeholder, value));
        } else {
            let rest = escaped(s.skip(1));
            lemma_replaced_then_escaped(s.skip(1), placeholder, value);
            assert(escaped(s) == head + rest);
            assert forall|i: int| 0 <= i < head.len() implies !begins_with(
                #[trigger] (head + rest).skip(i),
                placeholder,
            ) by {
                if i == 0 {
                    assert((head + rest).skip(0) =~= escaped(s));
                } else {
                    let behind = (head + rest).skip(i);
                    assert(behind[0] == head[i]);
                    if begins_with(behind, placeholder) {
                        assert(behind.take(n)[0] == behind[0]);
                    }
                }
            }
            lemma_replaced_behind(head, rest, placeholder, to);
            let tail = replaced(s.skip(1), placeholder, value);
            lemma_escaped_splits(seq![s[0]], tail);
            lemma_escaped_single(s[0]);
        }
    }
}

/// Fillings with escaped values.
spec fn escaped_fillings(fillings: Seq<Filling>) -> Seq<Filling> {
    fillings.map_values(|filling: Filling| (filling.0, escaped(filling.1)))
}

/// To fill a template and then escape is to escape it and then fill in escaped values.
proof fn lemma_filled_then_escaped(template: Seq<char>, fillings: Seq<Filling>)
    requires
        fills_placeholders(fillings),
    ensures
        filled(escaped(template), escaped_fillings(fillings)) == escaped(
            filled(template, fillings),
        ),
    decreases fillings.len(),
{
    if fillings.len() > 0 {
        let before = fillings.drop_last();
        lemma_fewer_placeholders(fillings);
        lemma_filled_then_escaped(template, before);
        assert(escaped_fillings(fillings).drop_last() =~= escaped_fillings(before));
        assert(is_placeholder(fillings[fillings.len() - 1].0));
        lemma_replaced_then_escaped(
            filled(template, before),
            fillings.last().0,
            fillings.last().1,
        );
    }
}

/// Replacing a placeholder stops at a quote behind which there is none.
proof fn lemma_replaced_before_quote(
    text: Seq<char>,
    end: Seq<char>,
    placeholder: Seq<char>,
    value: Seq<char>,
)
    requires
        is_placeholder(placeholder),
        is_plain(end),
        end.len() > 0 && end[0] == '"',
    ensures
        replaced(text + end, placeholder, value) == replaced(text, placeholder, value) + end,
    decreases text.len(),
{
    let n = placeholder.len() as int;
    if text.len() == 0 {
        assert(text + end =~= end);
        lemma_braces_needed(placeholder, end);
        lemma_replaced_nowhere(end, placeholder, value);
        assert(replaced(text, placeholder, value) + end =~= end);
    } else {
        let all = text + end;
        if n <= text.len() {
            assert(all.take(n) =~= text.take(n));
        } else if begins_with(all, placeholder) {
            assert(all.take(n)[text.len() as int] == '"');
            lemma_placeholder_is_ordinary(placeholder);
            assert(escaped_char(placeholder[text.len() as int]).len() == 1);
        }
        if begins_with(text, placeholder) {
            assert(all.skip(n) =~= text.skip(n) + end);
            lemma_replaced_before_quote(text.skip(n), end, placeholder, value);
            assert(replaced(all, placeholder, value) =~= replaced(text, placeholder, value) + end);
        } else {
            assert(all.skip(1) =~= text.skip(1) + end);
            assert(all[0] == text[0]);
            lemma_replaced_before_quote(text.skip(1), end, placeholder, value);
            assert(replaced(all, placeholder, value) =~= replaced(text, placeholder, value) + end);
        }
    }
}

/// Filling leaves what stands around a text in quotes.
proof fn lemma_filled_in_quotes(
    start: Seq<char>,
    text: Seq<char>,
    end: Seq<char>,
    fillings: Seq<Filling>,
)
    requires
        fills_placeholders(fillings),
        is_plain(start),
        is_plain(end),
        start.len() > 0 && start.last() == '"',
        end.len() > 0 && end[0] == '"',
    ensures
        filled(start + (text + end), fillings) == start + (filled(text, fillings) + end),
    decreases fillings.len(),
{
    if fillings.len() > 0 {
        let before = fillings.drop_last();
        let (placeholder, value) = fillings.last();
        lemma_fewer_placeholders(fillings);
        lemma_filled_in_quotes(start, text, end, before);
        assert(is_placeholder(fillings[fillings.len() - 1].0));
        let rest = filled(text, before) + end;
        assert forall|i: int| 0 <= i < start.len() implies !begins_with(
            #[trigger] (start + rest).skip(i),
            placeholder,
        ) by {
            let behind = (start + rest).skip(i);
            assert(behind[0] == start[i]);
            if begins_with(behind, placeholder) {
                assert(behind.take(placeholder.len() as int)[0] == behind[0]);
                assert(behind.take(placeholder.len() as int)[1] == behind[1]);
                if i + 1 < start.len() {
                    assert(behind[1] == start[i + 1]);
                } else {
                    assert(start[i] == start.last());
                }
            }
        }
        lemma_replaced_behind(start, rest, placeholder, value);
        lemma_replaced_before_quote(filled(text, before), end, placeholder, value);
    }
}

/// The default JSON template is the default text template, escaped, in a frame.
proof fn lemma_default_templates()
    ensures
        DEFAULT_DDNS_JSON_TEMPLATE@ == json_before() + (escaped(DEFAULT_DDNS_TEXT_TEMPLATE@)
            + json_after()),
{
    reveal_strlit("SimAdmin DDNS 通知\n域名: {{domains}}\nIP类型: {{ip_type}}\n新IP: {{new_ip}}\n旧IP: {{old_ip}}\n服务商: {{provider}}\n记录类型: {{record_type}}\n状态: {{status}}\n消息: {{message}}\n更新时间: {{timestamp}}");
    reveal_strlit(r#"{
  "msg_type": "text",
  "content": {
    "text": "SimAdmin DDNS 通知\n域名: {{domains}}\nIP类型: {{ip_type}}\n新IP: {{new_ip}}\n旧IP: {{old_ip}}\n服务商: {{provider}}\n记录类型: {{record_type}}\n状态: {{status}}\n消息: {{message}}\n更新时间: {{timestamp}}"
  }
}"#);
    reveal_strlit("{\n  \"msg_type\": \"text\",\n  \"content\": {\n    \"text\": \"");
    reveal_strlit("\"\n  }\n}");
    reveal_strlit("SimAdmin DDNS 通知");
    reveal_strlit("域名: {{domains}}");
    reveal_strlit("IP类型: {{ip_type}}");
    reveal_strlit("新IP: {{new_ip}}");
    reveal_strlit("旧IP: {{old_ip}}");
    reveal_strlit("服务商: {{provider}}");
    reveal_strlit("记录类型: {{record_type}}");
    reveal_strlit("状态: {{status}}");
    reveal_strlit("消息: {{message}}");
    reveal_strlit("更新时间: {{timestamp}}");
    let text = DEFAULT_DDNS_TEXT_TEMPLATE@;
    assert(text =~= "SimAdmin DDNS 通知"@
        + seq!['\n'] + "域名: {{domains}}"@
        + seq!['\n'] + "IP类型: {{ip_type}}"@
        + seq!['\n'] + "新IP: {{new_ip}}"@
        + seq!['\n'] + "旧IP: {{old_ip}}"@
        + seq!['\n'] + "服务商: {{provider}}"@
        + seq!['\n'] + "记录类型: {{record_type}}"@
        + seq!['\n'] + "状态: {{status}}"@
        + seq!['\n'] + "消息: {{message}}"@
        + seq!['\n'] + "更新时间: {{timestamp}}"@);
    assert(DEFAULT_DDNS_JSON_TEMPLATE@ =~= json_before() + ("SimAdmin DDNS 通知"@
        + seq!['\\', 'n'] + "域名: {{domains}}"@
        + seq!['\\', 'n'] + "IP类型: {{ip_type}}"@
        + seq!['\\', 'n'] + "新IP: {{new_ip}}"@
        + seq!['\\', 'n'] + "旧IP: {{old_ip}}"@
        + seq!['\\', 'n'] + "服务商: {{provider}}"@
        + seq!['\\', 'n'] + "记录类型: {{record_type}}"@
        + seq!['\\', 'n'] + "状态: {{status}}"@
        + seq!['\\', 'n'] + "消息: {{message}}"@
        + seq!['\\', 'n'] + "更新时间: {{timestamp}}"@ + json_after()));
    lemma_escaped_single('\n');
    law_ordinary_text_is_not_changed("SimAdmin DDNS 通知"@);
    law_ordinary_text_is_not_changed("域名: {{domains}}"@);
    law_ordinary_text_is_not_changed("IP类型: {{ip_type}}"@);
    law_ordinary_text_is_not_changed("新IP: {{new_ip}}"@);
    law_ordinary_text_is_not_changed("旧IP: {{old_ip}}"@);
    law_ordinary_text_is_not_changed("服务商: {{provider}}"@);
    law_ordinary_text_is_not_changed("记录类型: {{record_type}}"@);
    law_ordinary_text_is_not_changed("状态: {{status}}"@);
    law_ordinary_text_is_not_changed("消息: {{message}}"@);
    law_ordinary_text_is_not_changed("更新时间: {{timestamp}}"@);
    let done = "SimAdmin DDNS 通知"@;
    lemma_escaped_splits(done, seq!['\n']);
    lemma_escaped_splits(done + seq!['\n'], "域名: {{domains}}"@);
    let done = done + seq!['\n'] + "域名: {{domains}}"@;
    lemma_escaped_splits(done, seq!['\n']);
    lemma_escaped_splits(done + seq!['\n'], "IP类型: {{ip_type}}"@);
    let done = done + seq!['\n'] + "IP类型: {{ip_type}}"@;
    lemma_escaped_splits(done, seq!['\n']);
    lemma_escaped_splits(done + seq!['\n'], "新IP: {{new_ip}}"@);
    let done = done + seq!['\n'] + "新IP: {{new_ip}}"@;
    lemma_escaped_splits(done, seq!['\n']);
    lemma_escaped_splits(done + seq!['\n'], "旧IP: {{old_ip}}"@);
    let done = done + seq!['\n'] + "旧IP: {{old_ip}}"@;
    lemma_escaped_splits(done, seq!['\n']);
    lemma_escaped_splits(done + seq!['\n'], "服务商: {{provider}}"@);
    let done = done + seq!['\n'] + "服务商: {{provider}}"@;
    lemma_escaped_splits(done, seq!['\n']);
    lemma_escaped_splits(done + seq!['\n'], "记录类型: {{record_type}}"@);
    let done = done + seq!['\n'] + "记录类型: {{record_type}}"@;
    lemma_escaped_splits(done, seq!['\n']);
    lemma_escaped_splits(done + seq!['\n'], "状态: {{status}}"@);
    let done = done + seq!['\n'] + "状态: {{status}}"@;
    lemma_escaped_splits(done, seq!['\n']);
    lemma_escaped_splits(done + seq!['\n'], "消息: {{message}}"@);
    let done = done + seq!['\n'] + "消息: {{message}}"@;
    lemma_escaped_splits(done, seq!['\n']);
    lemma_escaped_splits(done + seq!['\n'], "更新时间: {{timestamp}}"@);
    let done = done + seq!['\n'] + "更新时间: {{timestamp}}"@;
}

/// The default JSON rendering of an event is its default text, escaped, in a frame.
pub proof fn law_default_json_holds_the_text(template: Seq<char>, event: DdnsEvent)
    requires
        is_blank(template),
    ensures
        ddns_text(template, event, true) == json_before() + (escaped(
            ddns_text(template, event, false),
        ) + json_after()),
{
    let time = notification_time(event.timestamp@);
    let fillings = ddns_fillings(event, time, false);
    let text = DEFAULT_DDNS_TEXT_TEMPLATE@;
    lemma_ddns_placeholders(event, time, true);
    lemma_ddns_placeholders(event, time, false);
    lemma_default_templates();
    reveal_strlit("{\n  \"msg_type\": \"text\",\n  \"content\": {\n    \"text\": \"");
    reveal_strlit("\"\n  }\n}");
    assert(escaped_fillings(fillings) =~= ddns_fillings(event, time, true));
    lemma_filled_then_escaped(text, fillings);
    lemma_filled_in_quotes(
        json_before(),
        escaped(text),
        json_after(),
        ddns_fillings(event, time, true),
    );
}

/// A line of a template, before others: a text and a placeholder.
spec fn line(text: Seq<char>, k: int, others: Seq<Piece>) -> Seq<Piece> {
    seq![Piece::Text(text), Piece::Hole(k)] + others
}

/// How a line stands before others.
proof fn lemma_line(text: Seq<char>, k: int, others: Seq<Piece>, values: Seq<Filling>)
    requires
        is_braceless(text),
        0 <= k < values.len(),
        holes_are_filled(others, values),
        has_braceless_texts(others),
    ensures
        holes_are_filled(line(text, k, others), values),
        has_braceless_texts(line(text, k, others)),
        template_of(line(text, k, others), values) == text + (values[k].0 + template_of(
            others,
            values,
        )),
        substituted(line(text, k, others), values) == text + (values[k].1 + substituted(
            others,
            values,
        )),
{
    let pieces = line(text, k, others);
    let behind = seq![Piece::Hole(k)] + others;
    assert(pieces.skip(1) =~= behind);
    assert(behind.skip(1) =~= others);
    assert(pieces[0] == Piece::Text(text));
    assert(behind[0] == Piece::Hole(k));
    assert forall|i: int| 0 <= i < pieces.len() implies ((
    #[trigger] pieces[i]) matches Piece::Hole(n) ==> 0 <= n < values.len()) by {
        if i >= 2 {
            assert(pieces[i] == others[i - 2]);
        }
    }
    assert forall|i: int| 0 <= i < pieces.len() implies ((
    #[trigger] pieces[i]) matches Piece::Text(t) ==> is_braceless(t)) by {
        if i >= 2 {
            assert(pieces[i] == others[i - 2]);
        }
    }
    assert(pieces_text(behind, values, 0) == values[k].0 + pieces_text(others, values, 0));
    let n = values.len() as int;
    assert(pieces_text(behind, values, n) == values[k].1 + pieces_text(others, values, n));
}

/// The lines of the default text template.
proof fn lemma_default_text_lines()
    ensures
        DEFAULT_DDNS_TEXT_TEMPLATE@ == "SimAdmin DDNS 通知\n域名: "@ + ("{{domains}}"@ + (
            "\nIP类型: "@ + ("{{ip_type}}"@ + (
            "\n新IP: "@ + ("{{new_ip}}"@ + (
            "\n旧IP: "@ + ("{{old_ip}}"@ + (
            "\n服务商: "@ + ("{{provider}}"@ + (
            "\n记录类型: "@ + ("{{record_type}}"@ + (
            "\n状态: "@ + ("{{status}}"@ + (
            "\n消息: "@ + ("{{message}}"@ + (
            "\n更新时间: "@ + ("{{timestamp}}"@ + (Seq::<char>::empty())))))))))))))))))),
{
    reveal_strlit("SimAdmin DDNS 通知\n域名: {{domains}}\nIP类型: {{ip_type}}\n新IP: {{new_ip}}\n旧IP: {{old_ip}}\n服务商: {{provider}}\n记录类型: {{record_type}}\n状态: {{status}}\n消息: {{message}}\n更新时间: {{timestamp}}");
    reveal_strlit("SimAdmin DDNS 通知\n域名: ");
    reveal_strlit("\nIP类型: ");
    reveal_strlit("\n新IP: ");
    reveal_strlit("\n旧IP: ");
    reveal_strlit("\n服务商: ");
    reveal_strlit("\n记录类型: ");
    reveal_strlit("\n状态: ");
    reveal_strlit("\n消息: ");
    reveal_strlit("\n更新时间: ");
    reveal_strlit("{{domains}}");
    reveal_strlit("{{ip_type}}");
    reveal_strlit("{{new_ip}}");
    reveal_strlit("{{old_ip}}");
    reveal_strlit("{{provider}}");
    reveal_strlit("{{record_type}}");
    reveal_strlit("{{status}}");
    reveal_strlit("{{message}}");
    reveal_strlit("{{timestamp}}");
    assert(DEFAULT_DDNS_TEXT_TEMPLATE@ =~= "SimAdmin DDNS 通知\n域名: "@ + ("{{domains}}"@ + (
        "\nIP类型: "@ + ("{{ip_type}}"@ + (
        "\n新IP: "@ + ("{{new_ip}}"@ + (
        "\n旧IP: "@ + ("{{old_ip}}"@ + (
        "\n服务商: "@ + ("{{provider}}"@ + (
        "\n记录类型: "@ + ("{{record_type}}"@ + (
        "\n状态: "@ + ("{{status}}"@ + (
        "\n消息: "@ + ("{{message}}"@ + (
        "\n更新时间: "@ + ("{{timestamp}}"@ + (Seq::<char>::empty())))))))))))))))))));
}

/// Under a blank template, an event is told in lines, each with the name of a value and the
/// value. This takes values without an opening brace.
pub proof fn law_default_text_lists_the_values(template: Seq<char>, event: DdnsEvent)
    requires
        is_blank(template),
        has_braceless_values(ddns_values(event, false)),
    ensures
        ddns_text(template, event, false) == "SimAdmin DDNS 通知\n域名: "@ + (domains_value(event) + (
            "\nIP类型: "@ + (ip_type_value(event) + (
            "\n新IP: "@ + (ip_value(event.new_ip) + (
            "\n旧IP: "@ + (ip_value(event.old_ip) + (
            "\n服务商: "@ + (event.provider@ + (
            "\n记录类型: "@ + (event.record_type@ + (
            "\n状态: "@ + (event.status@ + (
            "\n消息: "@ + (event.message@ + (
            "\n更新时间: "@ + (notification_time(event.timestamp@)))))))))))))))))),
{
    let values = ddns_values(event, false);
    law_ddns_values_are_filled_in_turn(template, event, false);
    reveal_strlit("SimAdmin DDNS 通知\n域名: ");
    reveal_strlit("\nIP类型: ");
    reveal_strlit("\n新IP: ");
    reveal_strlit("\n旧IP: ");
    reveal_strlit("\n服务商: ");
    reveal_strlit("\n记录类型: ");
    reveal_strlit("\n状态: ");
    reveal_strlit("\n消息: ");
    reveal_strlit("\n更新时间: ");
    let none = Seq::<Piece>::empty();
    lemma_line("\n更新时间: "@, 9, none, values);
    let time_line = line("\n更新时间: "@, 9, none);
    lemma_line("\n消息: "@, 8, time_line, values);
    let message_line = line("\n消息: "@, 8, time_line);
    lemma_line("\n状态: "@, 7, message_line, values);
    let status_line = line("\n状态: "@, 7, message_line);
    lemma_line("\n记录类型: "@, 6, status_line, values);
    let record_line = line("\n记录类型: "@, 6, status_line);
    lemma_line("\n服务商: "@, 5, record_line, values);
    let provider_line = line("\n服务商: "@, 5, record_line);
    lemma_line("\n旧IP: "@, 4, provider_line, values);
    let old_ip_line = line("\n旧IP: "@, 4, provider_line);
    lemma_line("\n新IP: "@, 3, old_ip_line, values);
    let new_ip_line = line("\n新IP: "@, 3, old_ip_line);
    lemma_line("\nIP类型: "@, 2, new_ip_line, values);
    let ip_type_line = line("\nIP类型: "@, 2, new_ip_line);
    lemma_line("SimAdmin DDNS 通知\n域名: "@, 0, ip_type_line, values);
    let lines = line("SimAdmin DDNS 通知\n域名: "@, 0, ip_type_line);
    lemma_default_text_lines();
    law_placeholders_go_where_nothing_else_has_braces(lines, values);
    lemma_filled_is_substituted(lines, values);
    let time = notification_time(event.timestamp@);
    assert(time + substituted(none, values) =~= time);
}

/// Whether a text has no control character but line breaks and tabs.
pub open spec fn is_writable(text: Seq<char>) -> bool {
    forall|i: int| 0 <= i < text.len() ==> is_writable_char(#[trigger] text[i])
}

/// Whether a character is no control character, or a line break or tab.
pub open spec fn is_writable_char(c: char) -> bool {
    c as u32 >= 0x20 || c == '\n' || c == '\r' || c == '\t'
}

proof fn lemma_writable_joined(a: Seq<char>, b: Seq<char>)
    requires
        is_writable(a),
        is_writable(b),
    ensures
        is_writable(a + b),
{
    assert forall|i: int| 0 <= i < (a + b).len() implies is_writable_char(
        #[trigger] (a + b)[i],
    ) by {
        if i < a.len() {
            assert((a + b)[i] == a[i]);
        } else {
            assert((a + b)[i] == b[i - a.len()]);
        }
    }
}

proof fn lemma_writable_skip(text: Seq<char>, n: int)
    requires
        is_writable(text),
        0 <= n <= text.len(),
    ensures
        is_writable(text.skip(n)),
{
    assert forall|i: int| 0 <= i < text.skip(n).len() implies is_writable_char(
        #[trigger] text.skip(n)[i],
    ) by {
        assert(text.skip(n)[i] == text[i + n]);
    }
}

proof fn lemma_writable_replaced(text: Seq<char>, from: Seq<char>, to: Seq<char>)
    requires
        is_writable(text),
        is_writable(to),
    ensures
        is_writable(replaced(text, from, to)),
    decreases text.len(),
{
    if text.len() > 0 && from.len() > 0 {
        if begins_with(text, from) {
            lemma_writable_skip(text, from.len() as int);
            lemma_writable_replaced(text.skip(from.len() as int), from, to);
            lemma_writable_joined(to, replaced(text.skip(from.len() as int), from, to));
        } else {
            lemma_writable_skip(text, 1);
            lemma_writable_replaced(text.skip(1), from, to);
            assert(is_writable_char(text[0]));
            lemma_writable_joined(seq![text[0]], replaced(text.skip(1), from, to));
        }
    }
}

proof fn lemma_writable_filled(template: Seq<char>, fillings: Seq<Filling>)
    requires
        is_writable(template),
        forall|i: int| 0 <= i < fillings.len() ==> is_writable((#[trigger] fillings[i]).1),
    ensures
        is_writable(filled(template, fillings)),
    decreases fillings.len(),
{
    if fillings.len() > 0 {
        let before = fillings.drop_last();
        assert forall|i: int| 0 <= i < before.len() implies is_writable(
            (#[trigger] before[i]).1,
        ) by {
            assert(before[i] == fillings[i]);
        }
        lemma_writable_filled(template, before);
        assert(is_writable(fillings[fillings.len() - 1].1));
        lemma_writable_replaced(
            filled(template, before),
            fillings.last().0,
            fillings.last().1,
        );
    }
}

proof fn lemma_writable_list(parts: Seq<Seq<char>>)
    requires
        forall|i: int| 0 <= i < parts.len() ==> is_writable(#[trigger] parts[i]),
    ensures
        is_writable(joined(parts, ", "@)),
    decreases parts.len(),
{
    reveal_strlit(", ");
    if parts.len() > 1 {
        let before = parts.drop_last();
        assert forall|i: int| 0 <= i < before.len() implies is_writable(#[trigger] before[i]) by {
            assert(before[i] == parts[i]);
        }
        lemma_writable_list(before);
        assert(is_writable(parts[parts.len() - 1]));
        lemma_writable_joined(joined(before, ", "@), ", "@);
        lemma_writable_joined(joined(before, ", "@) + ", "@, parts.last());
    }
}

/// Whether no text of an event has a control character but line breaks and tabs.
pub open spec fn is_writable_event(event: DdnsEvent) -> bool {
    &&& forall|i: int|
        0 <= i < event.domains@.len() ==> is_writable((#[trigger] event.domains@[i])@)
    &&& is_writable(event.record_type@)
    &&& event.old_ip matches Some(ip) ==> is_writable(ip@)
    &&& event.new_ip matches Some(ip) ==> is_writable(ip@)
    &&& is_writable(event.provider@)
    &&& is_writable(event.status@)
    &&& is_writable(event.message@)
    &&& is_writable(event.timestamp@)
}

proof fn lemma_default_text_is_writable(template: Seq<char>, event: DdnsEvent)
    requires
        is_blank(template),
        is_writable_event(event),
    ensures
        is_writable(ddns_text(template, event, false)),
{
    let time = notification_time(event.timestamp@);
    let fillings = ddns_fillings(event, time, false);
    reveal_strlit("SimAdmin DDNS 通知\n域名: {{domains}}\nIP类型: {{ip_type}}\n新IP: {{new_ip}}\n旧IP: {{old_ip}}\n服务商: {{provider}}\n记录类型: {{record_type}}\n状态: {{status}}\n消息: {{message}}\n更新时间: {{timestamp}}");
    reveal_strlit("-");
    reveal_strlit("IPv4");
    reveal_strlit("IPv6");
    assert(is_writable(DEFAULT_DDNS_TEXT_TEMPLATE@));
    let domains = views(event.domains@);
    assert forall|i: int| 0 <= i < domains.len() implies is_writable(#[trigger] domains[i]) by {
        assert(domains[i] == event.domains@[i]@);
    }
    lemma_writable_list(domains);
    assert(is_writable(domains_text(event.domains@)));
    assert(is_writable(ip_type_text(event.record_type@)));
    assert(is_writable(ip_text(event.new_ip)));
    assert(is_writable(ip_text(event.old_ip)));
    let (start, end) = lemma_trimmed_is_a_subrange(event.timestamp@);
    lemma_notification_time_is_a_time_or_the_text(event.timestamp@);
    assert(is_writable(time)) by {
        assert forall|i: int| 0 <= i < time.len() implies is_writable_char(#[trigger] time[i]) by {
            if time == trimmed(event.timestamp@) {
                assert(time[i] == event.timestamp@[start + i]);
            }
        }
    }
    lemma_writable_filled(DEFAULT_DDNS_TEXT_TEMPLATE@, fillings);
}

/// An escaped text without other control characters can stand in a JSON string, and is read
/// back from there.
proof fn lemma_escaped_is_string_body(text: Seq<char>)
    requires
        is_writable(text),
    ensures
        is_string_body(escaped(text)),
        string_text(escaped(text)) == text,
    decreases text.len(),
{
    if text.len() > 0 {
        lemma_writable_skip(text, 1);
        lemma_escaped_is_string_body(text.skip(1));
        assert(is_writable_char(text[0]));
        lemma_one_more_char(escaped_char(text[0]), text[0], escaped(text.skip(1)));
        assert(seq![text[0]] + text.skip(1) =~= text);
    }
}

/// How the text is laid out in the default JSON rendering.
spec fn text_member(body: Seq<char>) -> Member {
    Member {
        gap: "\n    "@,
        key: "text"@,
        colon_gap: " "@,
        value: Layout::Text(body),
        end_gap: "\n  "@,
    }
}

/// How the type is laid out in the default JSON rendering.
spec fn type_member() -> Member {
    Member {
        gap: "\n  "@,
        key: "msg_type"@,
        colon_gap: " "@,
        value: Layout::Text("text"@),
        end_gap: seq![],
    }
}

/// How the content is laid out in the default JSON rendering.
spec fn content_member(body: Seq<char>) -> Member {
    Member {
        gap: "\n  "@,
        key: "content"@,
        colon_gap: " "@,
        value: Layout::Object(seq![text_member(body)]),
        end_gap: "\n"@,
    }
}

/// How the default JSON rendering is laid out around a text.
spec fn default_layout(body: Seq<char>) -> Layout {
    Layout::Object(seq![type_member(), content_member(body)])
}

proof fn lemma_word(word: Seq<char>)
    requires
        is_ordinary(word),
        is_writable(word),
    ensures
        is_string_body(word),
        string_text(word) == word,
{
    law_ordinary_text_is_not_changed(word);
    lemma_escaped_is_string_body(word);
}

/// What the default JSON rendering writes: an object with the text of the event.
pub open spec fn default_json(text: Seq<char>) -> Json {
    Json::Object(
        no_entries().insert("msg_type"@, Json::Text("text"@)).insert(
            "content"@,
            one_text("text"@, text),
        ),
    )
}

/// The words of the default JSON rendering.
proof fn lemma_words()
    ensures
        is_string_body("text"@) && string_text("text"@) == "text"@,
        is_string_body("msg_type"@) && string_text("msg_type"@) == "msg_type"@,
        is_string_body("content"@) && string_text("content"@) == "content"@,
{
    reveal_strlit("text");
    reveal_strlit("msg_type");
    reveal_strlit("content");
    lemma_word("text"@);
    lemma_word("msg_type"@);
    lemma_word("content"@);
}

proof fn lemma_default_layout_is_proper(body: Seq<char>)
    requires
        is_string_body(body),
    ensures
        is_proper(default_layout(body), 127),
{
    reveal_strlit("\n    ");
    reveal_strlit("\n  ");
    reveal_strlit("\n");
    reveal_strlit(" ");
    lemma_words();
    let inners = seq![text_member(body)];
    let members = seq![type_member(), content_member(body)];
    assert(is_proper_member(type_member()));
    assert(is_proper_member(content_member(body)));
    assert(is_proper_member(text_member(body)));
    assert(is_proper(Layout::Text(body), 125));
    assert forall|i: int| 0 <= i < inners.len() implies is_proper_member(#[trigger] inners[i])
        && is_proper(inners[i].value, 125) by {
        assert(i == 0);
    }
    assert(is_proper(Layout::Object(inners), 126));
    assert(is_proper(Layout::Text("text"@), 126));
    assert forall|i: int| 0 <= i < members.len() implies is_proper_member(#[trigger] members[i])
        && is_proper(members[i].value, 126) by {
        assert(i == 0 || i == 1);
    }
}

proof fn lemma_default_layout_text(body: Seq<char>)
    ensures
        layout_then(default_layout(body), seq![]) == json_before() + (body + json_after()),
{
    let nothing: Seq<char> = seq![];
    let inners = seq![text_member(body)];
    let members = seq![type_member(), content_member(body)];
    let end = seq!['}'] + nothing;
    let inner_end = seq!['}'] + ("\n"@ + end);
    let text = seq!['"'] + (body + (seq!['"'] + ("\n  "@ + inner_end)));
    let inner = "\n    "@ + (seq!['"'] + ("text"@ + (seq!['"'] + (seq![':'] + (" "@ + text)))));
    let content = "\n  "@ + (seq!['"'] + ("content"@ + (seq!['"'] + (seq![':'] + (" "@ + (seq!['{']
        + inner))))));
    let first = seq!['"'] + ("text"@ + (seq!['"'] + (type_member().end_gap + (seq![',']
        + content))));
    let all = "\n  "@ + (seq!['"'] + ("msg_type"@ + (seq!['"'] + (seq![':'] + (" "@ + first)))));
    assert(member_then(text_member(body), inner_end) == inner);
    assert(members_then(inners, "\n"@ + end) == inner);
    assert(layout_then(Layout::Object(inners), "\n"@ + end) == seq!['{'] + inner);
    assert(member_then(content_member(body), end) == content);
    assert(members.skip(1) =~= seq![content_member(body)]);
    assert(members_then(members.skip(1), nothing) == content);
    assert(member_then(type_member(), seq![','] + content) == all);
    assert(members_then(members, nothing) == all);
    assert(layout_then(default_layout(body), nothing) == seq!['{'] + all);
    lemma_default_frame(body, all);
}

/// The parts of the default JSON rendering, put together.
proof fn lemma_default_frame(body: Seq<char>, all: Seq<char>)
    requires
        all == "\n  "@ + (seq!['"'] + ("msg_type"@ + (seq!['"'] + (seq![':'] + (" "@ + (seq!['"'] + (
        "text"@ + (seq!['"'] + (type_member().end_gap + (seq![','] + ("\n  "@ + (seq!['"'] + (
        "content"@ + (seq!['"'] + (seq![':'] + (" "@ + (seq!['{'] + ("\n    "@ + (seq!['"'] + (
        "text"@ + (seq!['"'] + (seq![':'] + (" "@ + (seq!['"'] + (body + (seq!['"'] + ("\n  "@ + (
        seq!['}'] + ("\n"@ + (seq!['}'] + type_member().end_gap)))))))))))))))))))))))))))))),
    ensures
        seq!['{'] + all == json_before() + (body + json_after()),
{
    reveal_strlit("{\n  \"msg_type\": \"text\",\n  \"content\": {\n    \"text\": \"");
    reveal_strlit("\"\n  }\n}");
    reveal_strlit("\n    ");
    reveal_strlit("\n  ");
    reveal_strlit("\n");
    reveal_strlit(" ");
    reveal_strlit("text");
    reveal_strlit("msg_type");
    reveal_strlit("content");
    assert(seq!['{'] + all =~= json_before() + (body + json_after()));
}

proof fn lemma_default_layout_json(body: Seq<char>)
    ensures
        layout_json(default_layout(body)) == default_json(string_text(body)),
{
    lemma_words();
    let inners = seq![text_member(body)];
    let members = seq![type_member(), content_member(body)];
    let text = string_text(body);
    let one = no_entries().insert("text"@, Json::Text(text));
    assert(inners.skip(1).len() == 0);
    assert(with_members(one, inners.skip(1)) == one);
    assert(inners[0] == text_member(body));
    assert(layout_json(Layout::Text(body)) == Json::Text(text));
    assert(with_members(no_entries(), inners) == one);
    assert(layout_json(content_member(body).value) == one_text("text"@, text));
    let typed = no_entries().insert("msg_type"@, Json::Text("text"@));
    let both = typed.insert("content"@, one_text("text"@, text));
    assert(members.skip(1).skip(1).len() == 0);
    assert(with_members(both, members.skip(1).skip(1)) == both);
    assert(members.skip(1)[0] == content_member(body));
    assert(with_members(typed, members.skip(1)) == both);
    assert(members[0] == type_member());
    assert(layout_json(Layout::Text("text"@)) == Json::Text("text"@));
    assert(with_members(no_entries(), members) == both);
}

/// The default JSON rendering of an event is read as an object whose text is the default text
/// of the event. This takes texts without control characters but line breaks and tabs: the
/// others are not escaped.
pub proof fn law_default_json_writes_the_text(template: Seq<char>, event: DdnsEvent)
    requires
        is_blank(template),
        is_writable_event(event),
    ensures
        read_json(ddns_text(template, event, true)) == Some(
            default_json(ddns_text(template, event, false)),
        ),
{
    let text = ddns_text(template, event, false);
    lemma_default_text_is_writable(template, event);
    law_default_json_holds_the_text(template, event);
    lemma_escaped_is_string_body(text);
    lemma_default_layout_is_proper(escaped(text));
    lemma_default_layout_text(escaped(text));
    lemma_default_layout_json(escaped(text));
    law_layout_text_writes_its_value(default_layout(escaped(text)));
}

} // verus!
