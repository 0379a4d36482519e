use notification::clock::format_notification_time;
use notification::models::{CallRecord, DdnsEvent, SmsMessage};
use notification::templates::{
    fill_call_template, fill_ddns_template, fill_sms_template, render_call_template,
    render_ddns_template, render_sms_template,
};

#[test]
fn formats_rfc3339_time_as_beijing_time() {
    assert_eq!(
        format_notification_time("2026-05-14T16:30:45Z"),
        "2026-05-15 00:30:45"
    );
    assert_eq!(
        format_notification_time("2026-05-15T08:30:45+08:00"),
        "2026-05-15 08:30:45"
    );
}

#[test]
fn renders_sms_time_variables_as_beijing_time() {
    let message = SmsMessage {
        id: 7,
        direction: "incoming".to_string(),
        phone_number: "+8613800138000".to_string(),
        content: "hello".to_string(),
        timestamp: "2026-05-14T16:30:45Z".to_string(),
        status: "received".to_string(),
        pdu: None,
    };

    assert_eq!(
        render_sms_template("{{timestamp}}|{{time}}", &message, false),
        "2026-05-15 00:30:45|2026-05-15 00:30:45"
    );
}

#[test]
fn renders_call_time_variables_as_beijing_time() {
    let call = CallRecord {
        id: 9,
        direction: "incoming".to_string(),
        phone_number: "+8613800138000".to_string(),
        duration: 12,
        start_time: "2026-05-14T16:30:45Z".to_string(),
        end_time: Some("2026-05-14T16:31:45Z".to_string()),
        answered: true,
    };

    assert_eq!(
        render_call_template("{{start_time}}|{{end_time}}|{{time}}", &call, false),
        "2026-05-15 00:30:45|2026-05-15 00:31:45|2026-05-15 00:30:45"
    );
}

#[test]
fn renders_ddns_time_variables_as_beijing_time() {
    let event = DdnsEvent {
        timestamp: "2026-05-14T16:30:45Z".to_string(),
        ..DdnsEvent::default()
    };

    assert_eq!(
        render_ddns_template("{{timestamp}}|{{time}}|{{更新时间}}", &event, false),
        "2026-05-15 00:30:45|2026-05-15 00:30:45|2026-05-15 00:30:45"
    );
}

fn message(content: &str) -> SmsMessage {
    SmsMessage {
        id: -7,
        direction: "incoming".to_string(),
        phone_number: "+8613800138000".to_string(),
        content: content.to_string(),
        timestamp: "2026-05-14T16:30:45Z".to_string(),
        status: "received".to_string(),
        pdu: None,
    }
}

fn call(direction: &str, answered: bool) -> CallRecord {
    CallRecord {
        id: 9,
        direction: direction.to_string(),
        phone_number: "10086".to_string(),
        duration: 12,
        start_time: "2026-05-14T16:30:45Z".to_string(),
        end_time: None,
        answered,
    }
}

fn event() -> DdnsEvent {
    DdnsEvent {
        domains: vec!["a.example".to_string(), "b.example".to_string()],
        record_type: "AAAA".to_string(),
        old_ip: None,
        new_ip: Some("::1".to_string()),
        provider: "dns \"one\"".to_string(),
        status: "success".to_string(),
        message: "done".to_string(),
        timestamp: "2026-05-14 16:30:45".to_string(),
    }
}

#[test]
fn fills_every_placeholder_of_a_text_message() {
    let template = "{{id}}|{{phone_number}}|{{content}}|{{direction}}|{{timestamp}}|{{status}}|\
                    {{sender}}|{{message}}|{{time}}";
    assert_eq!(
        render_sms_template(template, &message("hi"), false),
        "-7|+8613800138000|hi|incoming|2026-05-15 00:30:45|received|\
         +8613800138000|hi|2026-05-15 00:30:45"
    );
}

#[test]
fn fills_every_placeholder_of_a_call() {
    let template = "{{id}}|{{phone_number}}|{{direction}}|{{direction_cn}}|{{duration}}|\
                    {{start_time}}|{{end_time}}|{{answered}}|{{answered_bool}}|{{caller}}|{{time}}";
    assert_eq!(
        render_call_template(template, &call("incoming", true), false),
        "9|10086|incoming|来电|12|2026-05-15 00:30:45||是|true|10086|2026-05-15 00:30:45"
    );
    assert_eq!(
        render_call_template(template, &call("outgoing", false), true),
        "9|10086|outgoing|去电|12|2026-05-15 00:30:45||否|false|10086|2026-05-15 00:30:45"
    );
}

#[test]
fn fills_every_placeholder_of_a_dynamic_dns_event() {
    let template = "{{domains}}|{{domain}}|{{ip_type}}|{{new_ip}}|{{old_ip}}|{{provider}}|\
                    {{record_type}}|{{status}}|{{message}}|{{timestamp}}|{{time}}";
    let chinese = "{{域名}}|{{域名}}|{{IP类型}}|{{新IP}}|{{旧IP}}|{{服务商}}|\
                   {{记录类型}}|{{状态}}|{{消息}}|{{更新时间}}|{{更新时间}}";
    let expected = "a.example, b.example|a.example, b.example|IPv6|::1|-|dns \"one\"|\
                    AAAA|success|done|2026-05-14 16:30:45|2026-05-14 16:30:45";
    assert_eq!(render_ddns_template(template, &event(), false), expected);
    assert_eq!(render_ddns_template(chinese, &event(), false), expected);
    assert_eq!(
        render_ddns_template("{{provider}}", &event(), true),
        "dns \\\"one\\\""
    );
}

#[test]
fn names_the_kind_of_address() {
    let of = |record_type: &str| {
        let event = DdnsEvent { record_type: record_type.to_string(), ..DdnsEvent::default() };
        render_ddns_template("{{ip_type}} {{domains}}", &event, false)
    };
    assert_eq!(of("A"), "IPv4 -");
    assert_eq!(of("AAAA"), "IPv6 -");
    assert_eq!(of("CNAME"), "CNAME -");
}

#[test]
fn blank_templates_of_dynamic_dns_events_have_a_default() {
    let text = render_ddns_template(" \n", &event(), false);
    assert_eq!(
        text,
        "SimAdmin DDNS 通知\n域名: a.example, b.example\nIP类型: IPv6\n新IP: ::1\n旧IP: -\n\
         服务商: dns \"one\"\n记录类型: AAAA\n状态: success\n消息: done\n\
         更新时间: 2026-05-14 16:30:45"
    );
    let json = render_ddns_template("", &event(), true);
    let value: serde_json::Value = serde_json::from_str(&json).unwrap();
    assert_eq!(value["msg_type"], "text");
    assert_eq!(value["content"]["text"], text.as_str());
}

#[test]
fn blank_templates_of_messages_and_calls_stay_blank() {
    assert_eq!(render_sms_template(" ", &message("hi"), false), " ");
    assert_eq!(render_call_template("", &call("incoming", true), true), "");
}

#[test]
fn templates_without_placeholders_are_the_text() {
    let template = "{ \"a\": {1} } }} { {time}";
    assert_eq!(render_sms_template(template, &message("hi"), true), template);
    assert_eq!(render_call_template(template, &call("incoming", true), true), template);
    assert_eq!(render_ddns_template(template, &event(), true), template);
}

#[test]
fn unknown_placeholders_stay() {
    assert_eq!(
        render_sms_template("{{ content }}{{Content}}{{{content}}}", &message("hi"), false),
        "{{ content }}{{Content}}{hi}"
    );
}

#[test]
fn placeholders_are_filled_wherever_they_stand() {
    assert_eq!(
        render_sms_template("{{content}}{{content}} from {{sender}}.", &message("a{b"), false),
        "a{ba{b from +8613800138000."
    );
}

#[test]
fn a_later_placeholder_in_a_value_is_filled_too() {
    assert_eq!(
        render_sms_template("{{content}}", &message("at {{time}}"), false),
        "at 2026-05-15 00:30:45"
    );
    assert_eq!(
        render_sms_template("{{content}}", &message("of {{id}}"), false),
        "of {{id}}"
    );
}

#[test]
fn contents_are_escaped_in_json_templates() {
    let json = render_sms_template(r#"{"text":"{{content}}"}"#, &message("a\"b\\\n"), true);
    let value: serde_json::Value = serde_json::from_str(&json).unwrap();
    assert_eq!(value["text"], "a\"b\\\n");
}

#[test]
fn times_are_given_to_templates_as_texts() {
    assert_eq!(fill_sms_template("{{time}}", &message("hi"), "a\"b", true), "a\\\"b");
    assert_eq!(
        fill_call_template("{{start_time}}-{{end_time}}", &call("", true), "s", "e", false),
        "s-e"
    );
    assert_eq!(fill_ddns_template("{{更新时间}}", &event(), "now", false), "now");
}

#[test]
fn both_names_of_a_value_give_it() {
    let (message, call, event) = (message("a \"b\" {c}"), call("incoming", true), event());
    for escape_json in [false, true] {
        for (name, other) in [
            ("sender", "phone_number"),
            ("message", "content"),
            ("time", "timestamp"),
        ] {
            assert_eq!(
                render_sms_template(&format!("{{{{{}}}}}", name), &message, escape_json),
                render_sms_template(&format!("{{{{{}}}}}", other), &message, escape_json)
            );
        }
        for (name, other) in [("caller", "phone_number"), ("time", "start_time")] {
            assert_eq!(
                render_call_template(&format!("{{{{{}}}}}", name), &call, escape_json),
                render_call_template(&format!("{{{{{}}}}}", other), &call, escape_json)
            );
        }
        for (name, other) in [
            ("domain", "domains"),
            ("域名", "domains"),
            ("IP类型", "ip_type"),
            ("新IP", "new_ip"),
            ("旧IP", "old_ip"),
            ("服务商", "provider"),
            ("记录类型", "record_type"),
            ("状态", "status"),
            ("消息", "message"),
            ("time", "timestamp"),
            ("更新时间", "timestamp"),
        ] {
            assert_eq!(
                render_ddns_template(&format!("{{{{{}}}}}", name), &event, escape_json),
                render_ddns_template(&format!("{{{{{}}}}}", other), &event, escape_json)
            );
        }
    }
}

#[test]
fn the_json_flag_leaves_calls_with_ordinary_times() {
    let mut call = call("a \"way\"", true);
    call.end_time = Some("2026-05-14T16:31:45Z".to_string());
    let template = "{\n{{direction}} {{answered}} {{start_time}} {{end_time}} {{phone_number}}";
    assert_eq!(
        render_call_template(template, &call, true),
        render_call_template(template, &call, false)
    );
    call.end_time = Some("\"late\"".to_string());
    assert_ne!(
        render_call_template(template, &call, true),
        render_call_template(template, &call, false)
    );
}

#[test]
fn the_default_json_of_an_event_is_read_as_its_text() {
    let mut event = event();
    event.message = "line\nbreak\r\n\ttab \\ \"quote\" {{time}}".to_string();
    event.timestamp = "2026-05-14T16:30:45Z".to_string();
    for template in ["", " \n"] {
        let json = render_ddns_template(template, &event, true);
        let text = render_ddns_template(template, &event, false);
        let value: serde_json::Value = serde_json::from_str(&json).unwrap();
        assert_eq!(value.as_object().unwrap().len(), 2);
        assert_eq!(value["msg_type"], "text");
        assert_eq!(value["content"].as_object().unwrap().len(), 1);
        assert_eq!(value["content"]["text"], text.as_str());
    }
}
