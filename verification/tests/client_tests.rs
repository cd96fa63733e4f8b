use wickbot::client::{
    bytes_equal, empty_string, empty_value, frame, has_frame_end, payload, text_equals,
    ClientManager, FrameBuffer, InnerMessage, MessageRequest, Routing, FRAME_END,
    REPLY_TIMEOUT_SECS,
};

fn answer(msg_type: &str, request_id: Option<u32>) -> MessageRequest {
    MessageRequest {
        msg_type: msg_type.to_owned(),
        data: InnerMessage {
            msg_type: "request_refresh".to_owned(),
            request_id,
            data: Some("done".to_owned()),
        },
    }
}

#[test]
fn defaults_of_a_message() {
    assert_eq!(empty_value(), None);
    assert_eq!(empty_string(), "");
    assert_eq!(FRAME_END, 0x0c);
    assert_eq!(REPLY_TIMEOUT_SECS, 10);
}

#[test]
fn new_request_has_the_given_parts() {
    let m = MessageRequest::new("request_refresh", "to_server".to_owned(), 7);
    assert_eq!(
        m,
        MessageRequest {
            msg_type: "app.send_message".to_owned(),
            data: InnerMessage {
                msg_type: "request_refresh".to_owned(),
                request_id: Some(7),
                data: Some("to_server".to_owned()),
            },
        }
    );
    assert_eq!(m.get_data(), Some("to_server"));
    assert_eq!(m.answered_request(), None);
}

#[test]
fn data_that_is_no_string_reads_as_none() {
    let mut m = answer("app.receive_message", Some(1));
    m.data.data = None;
    assert_eq!(m.get_data(), None);
}

#[test]
fn only_received_messages_answer_a_request() {
    assert_eq!(answer("app.receive_message", Some(3)).answered_request(), Some(3));
    assert_eq!(answer("app.receive_message", None).answered_request(), None);
    assert_eq!(answer("app.send_message", Some(3)).answered_request(), None);
    assert_eq!(answer("app.receive_messag", Some(3)).answered_request(), None);
    assert_eq!(answer("", Some(3)).answered_request(), None);
}

#[test]
fn framing_appends_the_form_feed() {
    assert_eq!(frame("{}"), vec![b'{', b'}', 12]);
    assert_eq!(frame(""), vec![12]);
    assert_eq!(frame("é"), vec![0xc3, 0xa9, 12]);
}

#[test]
fn payload_is_all_but_the_last_byte() {
    assert_eq!(payload(&[b'{', b'}', 12]), &[b'{', b'}']);
    assert_eq!(payload(&[12]), &[] as &[u8]);
    assert_eq!(payload(&[1, 12, 3]), &[1, 12]);
    let framed = frame("{\"a\":1}");
    assert_eq!(payload(&framed), "{\"a\":1}".as_bytes());
}

#[test]
fn frame_end_is_found_anywhere() {
    assert!(has_frame_end(&[12]));
    assert!(has_frame_end(&[1, 2, 12, 4]));
    assert!(!has_frame_end(&[]));
    assert!(!has_frame_end(&[1, 2, 3, 13, 11]));
}

#[test]
fn buffer_collects_until_a_message_ends() {
    let mut b = FrameBuffer::new();
    assert_eq!(b.push(b"{\"type\":"), None);
    assert_eq!(b.push(b""), None);
    assert_eq!(b.push(b"\"x\"}\x0c"), Some(b"{\"type\":\"x\"}\x0c".to_vec()));
    assert_eq!(b.push(b"ab"), None);
    assert_eq!(b.push(b"\x0ccd"), Some(b"ab\x0ccd".to_vec()));
    assert_eq!(b.push(b"\x0c"), Some(vec![12]));
}

#[test]
fn request_ids_count_up_from_one() {
    let mut m = ClientManager::new();
    assert_eq!(m.last_request_id(), 0);
    let first = m.next_request("request_image", "to_server".to_owned());
    assert_eq!(first.data.request_id, Some(1));
    assert_eq!(first, MessageRequest::new("request_image", "to_server".to_owned(), 1));
    let second = m.next_request("request_refresh", "x".to_owned());
    assert_eq!(second.data.request_id, Some(2));
    assert_eq!(m.last_request_id(), 2);
    assert!(!m.is_active(1));
}

#[test]
fn answers_go_to_the_waiting_request_once() {
    let mut m = ClientManager::new();
    m.register(1);
    m.register(2);
    assert!(m.is_active(1) && m.is_active(2) && !m.is_active(3));
    assert_eq!(m.route(&answer("app.receive_message", Some(2))), Routing::Deliver(2));
    assert!(!m.is_active(2));
    assert!(m.is_active(1));
    assert_eq!(m.route(&answer("app.receive_message", Some(2))), Routing::Unclaimed(2));
    assert_eq!(m.route(&answer("app.receive_message", Some(9))), Routing::Unclaimed(9));
    assert_eq!(m.route(&answer("app.receive_message", None)), Routing::Ignored);
    assert_eq!(m.route(&answer("app.broadcast", Some(1))), Routing::Ignored);
    assert!(m.is_active(1));
    assert_eq!(m.route(&answer("app.receive_message", Some(1))), Routing::Deliver(1));
    assert!(!m.is_active(1));
}

#[test]
fn registering_twice_waits_once() {
    let mut m = ClientManager::new();
    m.register(5);
    m.register(5);
    assert_eq!(m.route(&answer("app.receive_message", Some(5))), Routing::Deliver(5));
    assert_eq!(m.route(&answer("app.receive_message", Some(5))), Routing::Unclaimed(5));
}

#[test]
fn texts_and_bytes_compare_by_content() {
    assert!(bytes_equal(b"", b""));
    assert!(bytes_equal(b"abc", b"abc"));
    assert!(!bytes_equal(b"abc", b"abd"));
    assert!(!bytes_equal(b"abc", b"ab"));
    assert!(!bytes_equal(b"ab", b"abc"));
    assert!(text_equals("!shop", "!shop"));
    assert!(!text_equals("!shop", "!Shop"));
    assert!(!text_equals("!shop", "!shop "));
    assert!(text_equals("é", "\u{e9}"));
}
