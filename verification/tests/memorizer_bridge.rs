//! The memorizer bridge: callback data, question bodies and the app's HTTP contract.

use serde_json::Value;
use telegram_topics::memorizer_bridge::{
    answer_body, answer_reply, build_rich_mc_send_body, memq_callback_data, next_reply,
    parse_memq_callback, AnswerKind, BridgeError, HttpBridgeTransport, MemqTap, NextReply,
    PendingQuestion, CALLBACK_DATA_MAX, MEMQ_PREFIX,
};

fn json(text: &str) -> Value {
    serde_json::from_str(text).unwrap()
}

fn sample() -> PendingQuestion {
    PendingQuestion {
        short_qid: "q1".into(),
        deck_id: "d1".into(),
        qtype: "mc".into(),
        front: "2+2?".into(),
        options: vec!["3".into(), "4".into(), "5".into()],
    }
}

fn math_sample() -> PendingQuestion {
    PendingQuestion {
        short_qid: "q1".into(),
        deck_id: String::new(),
        qtype: "mc".into(),
        front: "pick".into(),
        options: vec!["$\\tfrac12$".into(), "$1$".into(), "$2$".into()],
    }
}

#[test]
fn parse_memq_happy() {
    let t = parse_memq_callback("memq:q1:2").unwrap();
    assert_eq!(t.short_qid, "q1");
    assert_eq!(t.choice_idx, 2);
}

#[test]
fn parse_memq_rejects_non_memq_and_malformed() {
    assert!(parse_memq_callback("approval:abc:approve").is_none());
    assert!(parse_memq_callback("memq:q1").is_none()); // no idx separator
    assert!(parse_memq_callback("memq::2").is_none()); // empty short_qid
    assert!(parse_memq_callback("memq:q1:x").is_none()); // idx not a number
}

#[test]
fn memq_and_approval_prefixes_do_not_collide() {
    // The approval router uses strip_prefix("approval:"); ours uses "memq:".
    assert!("memq:q1:0".strip_prefix("approval:").is_none());
    assert!(parse_memq_callback("approval:x:approve").is_none());
}

#[test]
fn mc_plain_options_put_text_on_buttons() {
    // No math → option text on the buttons (nicer to tap); front is markdown.
    let body = build_rich_mc_send_body("-100200300", Some("42"), &sample()).unwrap();
    assert!(body["rich_message"]["markdown"].as_str().unwrap().contains("2+2?"));
    let kb = body["reply_markup"]["inline_keyboard"].as_array().unwrap();
    assert_eq!(kb.len(), 3);
    assert_eq!(body["message_thread_id"], Value::String("42".into()));
    assert_eq!(kb[0][0]["text"], "3"); // option text, not a letter
    assert_eq!(kb[0][0]["callback_data"], "memq:q1:0");
    assert_eq!(kb[2][0]["callback_data"], "memq:q1:2");
}

#[test]
fn rich_math_options_use_lettered_buttons_and_body() {
    // Options carry math → A/B/C buttons, option text in the body.
    let body = build_rich_mc_send_body("-100200300", Some("42"), &math_sample()).unwrap();
    let kb = body["reply_markup"]["inline_keyboard"].as_array().unwrap();
    assert_eq!(kb.len(), 3);
    assert_eq!(body["message_thread_id"], Value::String("42".into()));
    assert_eq!(kb[0][0]["text"], "A");
    assert_eq!(kb[2][0]["text"], "C");
}

#[test]
fn rich_letters_map_to_callback_index() {
    let body = build_rich_mc_send_body("-1", None, &math_sample()).unwrap();
    let kb = body["reply_markup"]["inline_keyboard"].as_array().unwrap();
    assert_eq!(kb[0][0]["callback_data"], "memq:q1:0");
    assert_eq!(kb[2][0]["callback_data"], "memq:q1:2");
    let md = body["rich_message"]["markdown"].as_str().unwrap();
    assert!(md.contains("A) $\\tfrac12$"), "{md}");
    assert!(md.contains("C) $2$"), "{md}");
}

#[test]
fn rich_body_rejects_oversize_callback_data() {
    let big = PendingQuestion {
        short_qid: "x".repeat(70),
        deck_id: String::new(),
        qtype: "mc".into(),
        front: "q".into(),
        options: vec!["a".into(), "b".into()],
    };
    assert!(build_rich_mc_send_body("-1", None, &big).is_err());
}

#[test]
fn rich_body_passes_markdown_and_math_verbatim() {
    // The front is markdown: intentional **bold** must survive unchanged
    // (escaping it would print literal asterisks), and $…$ LaTeX stays verbatim.
    let body = build_rich_mc_send_body(
        "-1",
        None,
        &PendingQuestion {
            short_qid: "q".into(),
            deck_id: String::new(),
            qtype: "mc".into(),
            front: "**Question 1** — evaluate $\\frac{1}{2}$".into(),
            options: vec!["a".into(), "b".into()],
        },
    )
    .unwrap();
    let md = body["rich_message"]["markdown"].as_str().unwrap();
    assert!(md.contains("**Question 1**"), "markdown bold must pass through: {md}");
    assert!(md.contains("$\\frac{1}{2}$"), "math must be verbatim: {md}");
}

#[test]
fn http_next_204_is_none() {
    assert_eq!(next_reply(204, "204 No Content"), Ok(NextReply::Nothing));
}

#[test]
fn http_answer_posts_expected_body() {
    assert_eq!(
        answer_body("q1", AnswerKind::Tap, "4"),
        json(r#"{ "short_qid": "q1", "kind": "tap", "value": "4" }"#)
    );
    let t = HttpBridgeTransport::new("http://127.0.0.1:8080", "tok");
    assert_eq!(t.answer_url(), "http://127.0.0.1:8080/bridge/v1/answer");
    assert_eq!(t.bearer(), "tok");
    assert_eq!(answer_reply(200, "200 OK"), Ok(()));
}

#[test]
fn question_body_is_exact() {
    assert_eq!(
        build_rich_mc_send_body("-1", None, &sample()).unwrap(),
        json(
            r#"{
                "chat_id": "-1",
                "rich_message": { "markdown": "2+2?" },
                "reply_markup": { "inline_keyboard": [
                    [{ "text": "3", "callback_data": "memq:q1:0" }],
                    [{ "text": "4", "callback_data": "memq:q1:1" }],
                    [{ "text": "5", "callback_data": "memq:q1:2" }]
                ] }
            }"#
        )
    );
    let body = build_rich_mc_send_body("-1", Some("7"), &math_sample()).unwrap();
    assert_eq!(
        body["rich_message"]["markdown"],
        "pick\n\nA) $\\tfrac12$\n\nB) $1$\n\nC) $2$"
    );
    assert_eq!(body["message_thread_id"], "7");
}

#[test]
fn question_without_options_has_an_empty_keyboard() {
    let q = PendingQuestion { options: vec![], short_qid: "x".repeat(100), ..sample() };
    let body = build_rich_mc_send_body("-1", None, &q).unwrap();
    assert_eq!(body["reply_markup"]["inline_keyboard"], json("[]"));
}

#[test]
fn one_math_option_letters_all_buttons() {
    let q = PendingQuestion { options: vec!["plain".into(), "a $x$".into()], ..sample() };
    let body = build_rich_mc_send_body("-1", None, &q).unwrap();
    let kb = body["reply_markup"]["inline_keyboard"].as_array().unwrap();
    assert_eq!(kb[0][0]["text"], "A");
    assert_eq!(kb[1][0]["text"], "B");
    assert_eq!(body["rich_message"]["markdown"], "2+2?\n\nA) plain\n\nB) a $x$");
}

#[test]
fn letters_wrap_after_z_and_after_256() {
    let options: Vec<String> = (0..258).map(|i| format!("${i}$")).collect();
    let q = PendingQuestion { options, ..sample() };
    let body = build_rich_mc_send_body("-1", None, &q).unwrap();
    let kb = body["reply_markup"]["inline_keyboard"].as_array().unwrap();
    for (i, row) in kb.iter().enumerate() {
        let expected = (b'A' + (i as u8 % 26)) as char;
        assert_eq!(row[0]["text"], expected.to_string());
    }
    assert_eq!(kb[26][0]["text"], "A");
    assert_eq!(kb[255][0]["text"], "V");
    assert_eq!(kb[256][0]["text"], "A");
}

#[test]
fn callback_data_limit_is_in_bytes() {
    // "memq:" + 57 bytes + ":0" is 64 bytes.
    let fits = PendingQuestion { short_qid: "x".repeat(57), ..sample() };
    assert!(build_rich_mc_send_body("-1", None, &fits).is_ok());
    let over = PendingQuestion { short_qid: "x".repeat(58), ..sample() };
    assert!(build_rich_mc_send_body("-1", None, &over).is_err());
    // 29 characters of two bytes each.
    let wide = PendingQuestion { short_qid: "é".repeat(29), ..sample() };
    let err = build_rich_mc_send_body("-1", None, &wide).unwrap_err();
    assert_eq!(
        err,
        BridgeError::CallbackDataTooLong {
            data: format!("memq:{}:0", "é".repeat(29)),
            bytes: 65,
        }
    );
    assert_eq!(CALLBACK_DATA_MAX, 64);
}

#[test]
fn first_oversize_choice_is_reported() {
    // Indices of one digit fit, the first of two digits does not.
    let q = PendingQuestion {
        short_qid: "x".repeat(57),
        options: (0..12).map(|i| i.to_string()).collect(),
        ..sample()
    };
    let err = build_rich_mc_send_body("-1", None, &q).unwrap_err();
    let data = format!("memq:{}:10", "x".repeat(57));
    assert_eq!(
        err.message(),
        format!("callback_data {data:?} is 65 bytes, over Telegram's 64-byte limit")
    );
}

#[test]
fn error_message_quotes_and_escapes() {
    let e = BridgeError::CallbackDataTooLong { data: "a\"b\n\\é\u{301}".into(), bytes: 99 };
    assert_eq!(
        e.message(),
        format!(
            "callback_data {:?} is 99 bytes, over Telegram's 64-byte limit",
            "a\"b\n\\é\u{301}"
        )
    );
}

#[test]
fn callback_data_is_exact() {
    assert_eq!(MEMQ_PREFIX, "memq:");
    assert_eq!(memq_callback_data("q1", 0), "memq:q1:0");
    assert_eq!(memq_callback_data("q1", 1234567890), "memq:q1:1234567890");
    assert_eq!(memq_callback_data("", usize::MAX), format!("memq::{}", usize::MAX));
}

#[test]
fn callback_data_round_trips() {
    for q in ["q", "a:b:c", ":", "é", " ", "q1"] {
        for i in [0, 1, 9, 10, 99, 100, usize::MAX] {
            assert_eq!(
                parse_memq_callback(&memq_callback_data(q, i)),
                Some(MemqTap { short_qid: q.to_string(), choice_idx: i })
            );
        }
    }
    assert_eq!(parse_memq_callback(&memq_callback_data("", 3)), None);
}

#[test]
fn tap_index_reads_like_usize() {
    for idx in ["", "+", "-", "+0", "+7", "-1", "007", " 1", "1 ", "1_0", "٣", "18446744073709551615",
        "18446744073709551616", "99999999999999999999999", "++1"]
    {
        let expected = idx.parse::<usize>().ok();
        let got = parse_memq_callback(&format!("memq:q:{idx}")).map(|t| t.choice_idx);
        assert_eq!(got, expected, "{idx:?}");
    }
}

#[test]
fn bridge_urls() {
    let t = HttpBridgeTransport::new("https://app.example///", "secret");
    assert_eq!(t.next_url(25), "https://app.example/bridge/v1/next?worker=tg&wait=25");
    assert_eq!(t.answer_url(), "https://app.example/bridge/v1/answer");
    let t = t.with_base_url("http://localhost:1/");
    assert_eq!(
        t.next_url(u64::MAX),
        format!("http://localhost:1/bridge/v1/next?worker=tg&wait={}", u64::MAX)
    );
    assert_eq!(t.bearer(), "secret");
    assert_eq!(HttpBridgeTransport::new("///", "").answer_url(), "/bridge/v1/answer");
}

#[test]
fn bridge_statuses() {
    assert_eq!(next_reply(200, "200 OK"), Ok(NextReply::Envelope));
    assert_eq!(next_reply(299, ""), Ok(NextReply::Envelope));
    let err = next_reply(500, "500 Internal Server Error").unwrap_err();
    assert_eq!(err, BridgeError::NextStatus { status: "500 Internal Server Error".into() });
    assert_eq!(err.message(), "bridge /next HTTP 500 Internal Server Error");
    assert!(next_reply(199, "").is_err());
    assert!(next_reply(300, "").is_err());
    assert_eq!(answer_reply(204, "204 No Content"), Ok(()));
    let err = answer_reply(401, "401 Unauthorized").unwrap_err();
    assert_eq!(err, BridgeError::AnswerStatus { status: "401 Unauthorized".into() });
    assert_eq!(err.message(), "bridge /answer HTTP 401 Unauthorized");
}

#[test]
fn answer_kinds_on_the_wire() {
    assert_eq!(AnswerKind::Tap.as_str(), "tap");
    assert_eq!(AnswerKind::Text.as_str(), "text");
    assert_eq!(answer_body("q", AnswerKind::Text, "é\"")["value"], "é\"");
}
