//! The wire formats: delta frames, blocking responses, worker envelopes,
//! and the encoders, including checks against an independent JSON decoder.
use dailycraft::protocol::{parse_frame_choices, parse_reply_choices, parse_envelope_fields};
use dailycraft::encode::{encode_chat_request, encode_extract_request, ChatMessage};
use dailycraft::client::build_chat_request;

fn frame(line: &[u8]) -> Option<Vec<Option<Vec<u8>>>> {
    parse_frame_choices(line)
}

#[test]
fn typical_delta_frame_decodes() {
    let cs = frame(
        b"{\"id\":\"c-1\",\"object\":\"chat.completion.chunk\",\"created\":1694268190,\
          \"model\":\"m\",\"choices\":[{\"index\":0,\"delta\":{\"content\":\"Hello\"},\
          \"logprobs\":null,\"finish_reason\":null}]}",
    )
    .unwrap();
    assert_eq!(cs, vec![Some(b"Hello".to_vec())]);
}

#[test]
fn delta_frame_edge_shapes() {
    // Null and absent content are carried as absent.
    assert_eq!(
        frame(b"{\"choices\":[{\"delta\":{\"content\":null}}]}").unwrap(),
        vec![None]
    );
    assert_eq!(frame(b"{\"choices\":[{\"delta\":{}}]}").unwrap(), vec![None]);
    // Several choices keep their order.
    assert_eq!(
        frame(b"{\"choices\":[{\"delta\":{\"content\":\"a\"}},{\"delta\":{\"content\":\"b\"}}]}")
            .unwrap(),
        vec![Some(b"a".to_vec()), Some(b"b".to_vec())]
    );
    // An empty array is a well-formed frame with no choices.
    assert_eq!(frame(b"{\"choices\":[]}").unwrap(), Vec::<Option<Vec<u8>>>::new());
    // Whitespace is immaterial.
    assert_eq!(
        frame(b"  { \"choices\" : [ { \"delta\" : { \"content\" : \"x\" } } ] }  ").unwrap(),
        vec![Some(b"x".to_vec())]
    );
}

#[test]
fn malformed_delta_frames_are_rejected() {
    assert!(frame(b"").is_none());
    assert!(frame(b"{").is_none());
    assert!(frame(b"{}").is_none());
    assert!(frame(b"{\"choices\":{}}").is_none());
    assert!(frame(b"{\"choices\":[{}]}").is_none());
    assert!(frame(b"{\"choices\":[{\"delta\":{\"content\":7}}]}").is_none());
    assert!(frame(b"{\"choices\":[{\"delta\":{\"content\":\"a\"}}]}trailing").is_none());
    assert!(frame(b"{\"choices\":[],\"choices\":[]}").is_none());
    assert!(frame(b"[{\"delta\":{\"content\":\"a\"}}]").is_none());
}

#[test]
fn string_escapes_decode() {
    let cs = frame(
        b"{\"choices\":[{\"delta\":{\"content\":\"a\\nb\\tc\\\"d\\\\e\\u0041\\u00e9\"}}]}",
    )
    .unwrap();
    assert_eq!(cs, vec![Some("a\nb\tc\"d\\eA\u{e9}".as_bytes().to_vec())]);
    // A surrogate pair becomes one four-byte character.
    let cs = frame(b"{\"choices\":[{\"delta\":{\"content\":\"\\ud83d\\ude00\"}}]}").unwrap();
    assert_eq!(cs, vec![Some("\u{1f600}".as_bytes().to_vec())]);
    // A lone surrogate is malformed.
    assert!(frame(b"{\"choices\":[{\"delta\":{\"content\":\"\\ud83d\"}}]}").is_none());
}

#[test]
fn frame_decoding_agrees_with_serde() {
    // The independent decoder accepts exactly the lines this library's
    // grammar accepts, on a sample of well- and ill-formed frames.
    let lines: [&[u8]; 6] = [
        b"{\"choices\":[{\"delta\":{\"content\":\"ok\"},\"index\":0}]}",
        b"{\"choices\":[{\"delta\":{\"content\":\"\\u00e9\"}}]} ",
        b"{\"choices\":0}",
        b"{\"choices\":[{\"delta\":3}]}",
        b"{\"choices\":[{\"delta\":{\"content\":\"x\"}}]}]",
        b"{\"model\":\"m\"}",
    ];
    for line in lines {
        let mine = parse_frame_choices(line).is_some();
        let theirs = serde_json::from_str::<serde_json::Value>(std::str::from_utf8(line).unwrap())
            .ok()
            .map(|v| {
                v.as_object().map_or(false, |o| {
                    o.get("choices").map_or(false, |c| {
                        c.as_array().map_or(false, |a| {
                            a.iter().all(|ch| {
                                ch.as_object().map_or(false, |co| {
                                    co.get("delta").map_or(false, |d| {
                                        d.is_object() && d.get("content").map_or(
                                            true,
                                            |x| x.is_string() || x.is_null(),
                                        )
                                    })
                                })
                            })
                        })
                    })
                })
            })
            .unwrap_or(false);
        assert_eq!(mine, theirs, "disagreement on {:?}", String::from_utf8_lossy(line));
    }
}

#[test]
fn blocking_reply_decodes() {
    let cs = parse_reply_choices(
        b"{\"id\":\"x\",\"choices\":[{\"message\":{\"role\":\"assistant\",\"content\":\"one\"}},\
          {\"message\":{\"content\":\"two\"}}],\"usage\":{\"total_tokens\":9}}",
    )
    .unwrap();
    assert_eq!(cs, vec![b"one".to_vec(), b"two".to_vec()]);
    // content is required and must be a string.
    assert!(parse_reply_choices(b"{\"choices\":[{\"message\":{}}]}").is_none());
    assert!(parse_reply_choices(b"{\"choices\":[{\"message\":{\"content\":null}}]}").is_none());
    assert!(parse_reply_choices(b"{\"choices\":[{}]}").is_none());
}

#[test]
fn envelope_decodes() {
    assert_eq!(
        parse_envelope_fields(b"{\"text\":\"hello\"}").unwrap(),
        (Some(b"hello".to_vec()), None)
    );
    assert_eq!(
        parse_envelope_fields(b"{\"error\":\"boom\"}").unwrap(),
        (None, Some(b"boom".to_vec()))
    );
    assert_eq!(
        parse_envelope_fields(b"{\"text\":\"t\",\"error\":\"e\",\"other\":[1,{}]}").unwrap(),
        (Some(b"t".to_vec()), Some(b"e".to_vec()))
    );
    // Any well-formed non-object carries neither field.
    assert_eq!(parse_envelope_fields(b"42").unwrap(), (None, None));
    assert_eq!(parse_envelope_fields(b"null").unwrap(), (None, None));
    assert!(parse_envelope_fields(b"{,}").is_none());
    assert!(parse_envelope_fields(b"").is_none());
}

#[test]
fn deep_nesting_is_bounded() {
    // A value nested deeper than the decoder's budget is rejected rather
    // than recursed into without bound.
    let mut deep = Vec::new();
    for _ in 0..200 {
        deep.push(b'[');
    }
    for _ in 0..200 {
        deep.push(b']');
    }
    let mut line = b"{\"extra\":".to_vec();
    line.extend_from_slice(&deep);
    line.extend_from_slice(b",\"text\":\"x\"}");
    assert!(parse_envelope_fields(&line).is_none());
}

#[test]
fn chat_request_encodes_exactly() {
    let msgs = vec![ChatMessage { role: b"user".to_vec(), content: b"hi \"there\"\n".to_vec() }];
    let body = encode_chat_request(b"qwen-plus", &msgs, true);
    assert_eq!(
        body,
        b"{\"model\":\"qwen-plus\",\"messages\":[{\"role\":\"user\",\
           \"content\":\"hi \\\"there\\\"\\n\"}],\"stream\":true}"
            .to_vec()
    );
    let body = encode_chat_request(b"m", &Vec::new(), false);
    assert_eq!(body, b"{\"model\":\"m\",\"messages\":[],\"stream\":false}".to_vec());
}

#[test]
fn chat_request_round_trips_through_serde() {
    let msgs = vec![
        ChatMessage { role: b"system".to_vec(), content: b"a\tb".to_vec() },
        ChatMessage { role: b"user".to_vec(), content: "héllo \u{1}\u{8}".as_bytes().to_vec() },
    ];
    let body = encode_chat_request(b"m1", &msgs, true);
    let v: serde_json::Value = serde_json::from_slice(&body).unwrap();
    assert_eq!(v["model"], "m1");
    assert_eq!(v["stream"], true);
    assert_eq!(v["messages"][0]["role"], "system");
    assert_eq!(v["messages"][0]["content"], "a\tb");
    assert_eq!(v["messages"][1]["content"], "héllo \u{1}\u{8}");
}

#[test]
fn extract_request_round_trips_through_serde() {
    let line = encode_extract_request("im\\age \"x\" ü.png".as_bytes());
    assert_eq!(*line.last().unwrap(), b'\n');
    let v: serde_json::Value = serde_json::from_slice(&line[..line.len() - 1]).unwrap();
    assert_eq!(v["image_path"], "im\\age \"x\" ü.png");
}

#[test]
fn two_role_request_builder() {
    let body = build_chat_request(b"m", b"sys", b"usr", false);
    assert_eq!(
        body,
        b"{\"model\":\"m\",\"messages\":[{\"role\":\"system\",\"content\":\"sys\"},\
           {\"role\":\"user\",\"content\":\"usr\"}],\"stream\":false}"
            .to_vec()
    );
}
