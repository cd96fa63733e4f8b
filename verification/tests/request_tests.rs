use wickbot::dispatcher::MessageBroadcast;
use wickbot::request::{build_request, DeliveryRequest};
use wickbot::text::{format_int, format_nat};

#[test]
fn request_carries_the_message_as_json() {
    let r = build_request("abc.def", "hi", 5);
    assert_eq!(
        r,
        DeliveryRequest {
            method: "POST".to_owned(),
            uri: "https://discord.com/api/v8/channels/5/messages".to_owned(),
            authorization: "Bot abc.def".to_owned(),
            content_type: "application/json".to_owned(),
            user_agent: "JohnWickBot(https://wickshopbot.com, 0.1)".to_owned(),
            body: "{\"content\":\"hi\"}".to_owned(),
        }
    );
}

#[test]
fn request_body_escapes_what_json_must_escape() {
    let r = build_request("t", "say \"hi\"\n\\o/ \u{1F600} é", 1);
    assert_eq!(r.body, "{\"content\":\"say \\\"hi\\\"\\n\\\\o/ \u{1F600} é\"}");
    let parsed: serde_json::Value = serde_json::from_str(&r.body).unwrap();
    assert_eq!(parsed["content"].as_str(), Some("say \"hi\"\n\\o/ \u{1F600} é"));
    assert_eq!(build_request("t", "", 1).body, "{\"content\":\"\"}");
}

#[test]
fn request_addresses_the_channel() {
    assert_eq!(
        build_request("t", "m", 739216430443823104).uri,
        "https://discord.com/api/v8/channels/739216430443823104/messages"
    );
    assert_eq!(build_request("t", "m", 0).uri, "https://discord.com/api/v8/channels/0/messages");
    assert_eq!(
        build_request("t", "m", -12).uri,
        "https://discord.com/api/v8/channels/-12/messages"
    );
    assert_eq!(
        build_request("t", "m", i64::MIN).uri,
        "https://discord.com/api/v8/channels/-9223372036854775808/messages"
    );
}

#[test]
fn broadcast_builds_its_own_requests() {
    let b = MessageBroadcast::new(vec![1, 2], "tok".to_owned(), "news");
    assert_eq!(b.request_for(2), build_request("tok", "news", 2));
    assert_eq!(b.request_for(2).authorization, "Bot tok");
    assert_eq!(b.request_for(2).body, "{\"content\":\"news\"}");
}

#[test]
fn whole_numbers_are_written_in_decimal() {
    assert_eq!(format_nat(0), "0");
    assert_eq!(format_nat(7), "7");
    assert_eq!(format_nat(10), "10");
    assert_eq!(format_nat(1234567890), "1234567890");
    assert_eq!(format_nat(u64::MAX), "18446744073709551615");
    assert_eq!(format_int(0), "0");
    assert_eq!(format_int(-1), "-1");
    assert_eq!(format_int(2026), "2026");
    assert_eq!(format_int(i64::MAX), "9223372036854775807");
    assert_eq!(format_int(i64::MIN), "-9223372036854775808");
    for n in [-1000i64, -999, -10, -9, 9, 10, 99, 100, 101, 65535] {
        assert_eq!(format_int(n), n.to_string());
    }
}
