use wickbot::classify::{
    classify_response, parse_header, parse_header_wrap, read_bucket, BroadcastResult, HeaderError,
    Response,
};
use wickbot::decimal::read_whole;
use wickbot::outcome::{FatalReason, Outcome, RejectReason};

fn response(status: u16, body: &str) -> Response {
    Response { status, remaining: None, reset: None, bucket: None, body: body.as_bytes().to_vec() }
}

#[test]
fn absent_header_counts_as_zero() {
    assert_eq!(parse_header(None), Ok(0));
    assert_eq!(parse_header_wrap(None), 0);
}

#[test]
fn header_numbers_are_cut_off_to_whole_numbers() {
    assert_eq!(parse_header(Some(&b"4"[..])), Ok(4));
    assert_eq!(parse_header(Some(&b"1612345678.987"[..])), Ok(1612345678));
    assert_eq!(parse_header(Some(&b"0.999"[..])), Ok(0));
    assert_eq!(parse_header(Some(&b"-3"[..])), Ok(0));
    assert_eq!(parse_header_wrap(Some(&b"17.5"[..])), 17);
}

#[test]
fn unreadable_header_is_an_error_and_counts_as_zero() {
    for bad in [
        &b""[..], b"soon", b"12 ", b"1_000", b"\xff\xfe", b"na", b"nann", b"in", b"infinit",
        b"infinityy", b"+", b"-", b"++inf", b"inf ", b" nan", b"i\xcd\xb1f",
    ] {
        assert_eq!(parse_header(Some(bad)), Err(HeaderError));
        assert_eq!(parse_header_wrap(Some(bad)), 0);
    }
}

#[test]
fn headers_are_recorded_beside_the_outcome() {
    let r = classify_response(&Response {
        status: 200,
        remaining: Some(b"4".to_vec()),
        reset: Some(b"1470173023.123".to_vec()),
        bucket: Some(b"abcd1234".to_vec()),
        body: b"{\"id\":\"1\"}".to_vec(),
    });
    assert_eq!(
        r,
        BroadcastResult {
            outcome: Outcome::Success,
            rate_limit_stamp: 1470173023,
            rate_limit_left: 4,
            rate_limit_bucket: Some("abcd1234".to_owned()),
        }
    );
}

#[test]
fn remaining_count_wraps_at_thirty_two_bits() {
    let r = classify_response(&Response {
        status: 200,
        remaining: Some(b"4294967301".to_vec()),
        reset: Some(b"4294967301".to_vec()),
        bucket: None,
        body: Vec::new(),
    });
    assert_eq!(r.rate_limit_left, 5);
    assert_eq!(r.rate_limit_stamp, 4294967301);
    assert_eq!(r.rate_limit_bucket, None);
}

#[test]
fn headers_never_change_the_outcome() {
    let bodies = ["", "{\"code\":50001}", "{\"code\":10003}", "{\"retry_after\":2.5}"];
    for status in [200u16, 403, 404, 429, 500] {
        for body in bodies {
            let bare = classify_response(&response(status, body));
            let exhausted = classify_response(&Response {
                status,
                remaining: Some(b"0".to_vec()),
                reset: Some(b"99999999999".to_vec()),
                bucket: Some(b"b".to_vec()),
                body: body.as_bytes().to_vec(),
            });
            assert_eq!(bare.outcome, exhausted.outcome);
            assert_eq!(bare.rate_limit_left, 0);
            assert_eq!(bare.rate_limit_stamp, 0);
        }
    }
}

#[test]
fn whole_responses_follow_the_table() {
    assert_eq!(
        classify_response(&response(403, "{\"code\":50013}")).outcome,
        Outcome::Fatal { reason: FatalReason::MissingPermissions }
    );
    assert_eq!(
        classify_response(&response(404, "nothing here")).outcome,
        Outcome::Rejected { reason: RejectReason::NotFound }
    );
    assert_eq!(
        classify_response(&response(429, "{\"retry_after\":1.25}")).outcome,
        Outcome::RateLimited { retry_after_ms: 1250 }
    );
}

#[test]
fn classifying_a_response_twice_gives_the_same_result() {
    let r = Response {
        status: 429,
        remaining: Some(b"0".to_vec()),
        reset: Some(b"12.5".to_vec()),
        bucket: Some(b"x".to_vec()),
        body: b"{\"retry_after\": 0.75}".to_vec(),
    };
    assert_eq!(classify_response(&r), classify_response(&r));
}

#[test]
fn header_words_count_as_numbers() {
    for nan in [&b"nan"[..], b"NaN", b"NAN", b"nAn", b"+nan", b"-nan", b"-NaN"] {
        assert_eq!(parse_header(Some(nan)), Ok(0));
        assert_eq!(parse_header_wrap(Some(nan)), 0);
    }
    for inf in [&b"inf"[..], b"INF", b"Inf", b"+inf", b"infinity", b"Infinity", b"+INFINITY"] {
        assert_eq!(parse_header(Some(inf)), Ok(u64::MAX));
        assert_eq!(parse_header_wrap(Some(inf)), u64::MAX);
    }
    for minus in [&b"-inf"[..], b"-INF", b"-infinity", b"-Infinity"] {
        assert_eq!(parse_header(Some(minus)), Ok(0));
    }
}

#[test]
fn whole_numbers_are_read_as_the_parse_and_cast_of_a_decimal_fraction_would() {
    let texts = [
        "0", "7", "7.9", "-7.9", "+7.9", ".5", "5.", "1e3", "1E3", "1e-3", "2.5e1", "1e19", "1e20",
        "nan", "NaN", "inf", "-inf", "Infinity", "-infinity", "+nan", "", ".", "e", "1e", "abc",
        "1 ", "0x1", "infinit", "na", "1612345678.25", "18446744073709551615", "-0", "-0.0",
    ];
    for text in texts {
        let expected = text.parse::<f64>().ok().map(|v| v as u64);
        assert_eq!(read_whole(text.as_bytes()), expected, "{:?}", text);
    }
}

#[test]
fn bucket_is_read_where_it_is_text() {
    assert_eq!(read_bucket(None), None);
    assert_eq!(read_bucket(Some(&b"abcd1234"[..])), Some("abcd1234".to_owned()));
    assert_eq!(read_bucket(Some(&b""[..])), Some(String::new()));
    assert_eq!(read_bucket(Some(&b"a b\tc~"[..])), Some("a b\tc~".to_owned()));
}

#[test]
fn unreadable_bucket_names_none() {
    for bad in [&b"\xff"[..], b"abc\x7f", b"a\nb", b"\x00", b"caf\xc3\xa9", b"ok\x1f"] {
        assert_eq!(read_bucket(Some(bad)), None);
        let r = classify_response(&Response {
            status: 200,
            remaining: Some(b"\xff".to_vec()),
            reset: Some(b"\x80".to_vec()),
            bucket: Some(bad.to_vec()),
            body: b"\xff".to_vec(),
        });
        assert_eq!(
            r,
            BroadcastResult {
                outcome: Outcome::Success,
                rate_limit_stamp: 0,
                rate_limit_left: 0,
                rate_limit_bucket: None,
            }
        );
    }
}
