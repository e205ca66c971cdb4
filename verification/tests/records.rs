use voice_server::asr::extract_text;
use voice_server::error::{parse_openai_error, ClientError, OpenAiError};
use voice_server::funasr::parse_server_event;
use voice_server::llm::{parse_non_stream_response, parse_stream_payload};
use voice_server::memory::{message_from_json, Role};
use voice_server::record::{read_elements, read_members, read_record};
use voice_server::tts::{parse_speech_audio_event, parse_voice_list};
use voice_server::tts_ws::{parse_control_message, ServerMessage};

#[test]
fn members_and_elements_are_taken_apart() {
    let members = read_members(b" {\"a\" : 1 , \"b\":[ 2,{}],\"\\u0061\":\"x,}\"} \n").unwrap();
    let names: Vec<&str> = members.iter().map(|(n, _)| n.as_str()).collect();
    assert_eq!(names, vec!["a", "b", "a"]);
    assert_eq!(members[0].1, b" 1");
    assert_eq!(members[1].1, b"[ 2,{}]");
    assert_eq!(members[2].1, b"\"x,}\"");
    assert!(read_members(b"{}").unwrap().is_empty());
    let elements = read_elements(b"[1, \"]\" ,[2]]").unwrap();
    assert_eq!(elements, vec![b"1".to_vec(), b" \"]\"".to_vec(), b"[2]".to_vec()]);
    assert!(read_elements(b"[ ]").unwrap().is_empty());
    for bad in ["", "{", "{\"a\"}", "{\"a\":1,}", "{a:1}", "{\"a\":1}x", "{\"a\":1 \"b\":2}", "[]", "5"] {
        assert!(read_members(bad.as_bytes()).is_none(), "{bad}");
    }
    for bad in ["", "[", "[1,]", "[1 2]", "[1]x", "{}", "5"] {
        assert!(read_elements(bad.as_bytes()).is_none(), "{bad}");
    }
}

#[test]
fn record_is_an_object_or_an_array() {
    let names = ["a", "b"];
    let f = read_record(b"{\"b\":2,\"c\":3,\"c\":4}", &names, 1).unwrap();
    assert_eq!(f, vec![None, Some(b"2".to_vec())]);
    assert!(read_record(b"{\"b\":2,\"b\":2}", &names, 1).is_none());
    assert_eq!(read_record(b"[1]", &names, 1).unwrap(), vec![Some(b"1".to_vec()), None]);
    assert!(read_record(b"[]", &names, 1).is_none());
    assert!(read_record(b"[1,2,3]", &names, 1).is_none());
    assert!(read_record(b"null", &names, 0).is_none());
}

#[test]
fn recognised_text_is_read_from_any_record() {
    for (body, text) in [
        (r#"{"text":"你好"}"#, "你好"),
        (r#"{"\u0074ext":"a\n"}"#, "a\n"),
        (r#"{"x":1e999,"x":2,"text":"b"}"#, "b"),
        (r#"["c"]"#, "c"),
        (r#"{}"#, ""),
        (r#"[]"#, ""),
    ] {
        assert_eq!(extract_text(body, None).unwrap(), text, "{body}");
    }
    for body in [
        r#"{"text":"a","text":"b"}"#,
        r#"{"text":null}"#,
        r#"{"text":5}"#,
        r#"["a","b"]"#,
        r#""a""#,
        r#"{"text":"a"} x"#,
    ] {
        assert!(matches!(extract_text(body, None), Err(ClientError::Decode(_))), "{body}");
    }
    let verbose = Some("verbose_json");
    let body = r#"{"text":"a","language":null,"duration":1.5,"segments":[{"id":0}]}"#;
    assert_eq!(extract_text(body, verbose).unwrap(), "a");
    assert_eq!(extract_text(r#"["a","zh",2]"#, verbose).unwrap(), "a");
    assert!(extract_text(r#"{"text":"a","duration":"1"}"#, verbose).is_err());
    assert!(extract_text(r#"{"text":"a","duration":1e999}"#, verbose).is_err());
    assert!(extract_text(r#"{"text":"a","segments":{}}"#, verbose).is_err());
}

#[test]
fn error_objects_are_records_of_records() {
    let e = parse_openai_error(r#"[["m",null,"p","c"]]"#).unwrap();
    assert_eq!((e.message.as_str(), e.code.as_str()), ("m", "c"));
    assert_eq!((e.type_, e.param.as_deref()), (None, Some("p")));
    assert!(parse_openai_error(r#"{"error":{"message":"m","code":"c","code":"c"}}"#).is_none());
    assert!(parse_openai_error(r#"{"error":["m"]}"#).is_none());
    assert!(parse_openai_error(r#"{"error":null}"#).is_none());
    let e = OpenAiError {
        message: "a \"b\" \\ \n 你".to_string(),
        type_: Some("".to_string()),
        param: None,
        code: "c".to_string(),
    };
    let (_, body) = ClientError::Api { status: 400, error: e.clone() }.render_api_envelope().unwrap();
    let back = parse_openai_error(&body).unwrap();
    assert_eq!((back.message, back.type_, back.param, back.code), (e.message, e.type_, e.param, e.code));
}

#[test]
fn frames_are_records() {
    assert!(matches!(
        parse_control_message(r#"["audio.done",true]"#),
        Ok(ServerMessage::AudioDone { error: true })
    ));
    assert!(parse_control_message("[]").is_err());
    assert!(parse_control_message(r#"{"type":"audio.start","type":"audio.start"}"#).is_err());
    let r = parse_server_event(br#"["online","hi",true]"#).unwrap().unwrap();
    assert_eq!((r.text.as_str(), r.is_final), ("hi", true));
    assert!(parse_server_event(br#"{"mode":"online","timestamp":1e999}"#).is_err());
    assert!(parse_server_event(br#"{"mode":"online","other":1e999}"#).unwrap().is_some());
}

#[test]
fn chat_documents_are_records() {
    let o = parse_stream_payload(br#"["i",1,"m",[[0,["hi"],"stop"]],[1,2,3]]"#).unwrap().unwrap();
    assert_eq!((o.delta.as_str(), o.is_final), ("hi", true));
    assert_eq!(o.usage.map(|u| u.total_tokens), Some(3));
    let o = parse_stream_payload(br#"{"choices":[{"finish_reason":null}]}"#).unwrap().unwrap();
    assert_eq!((o.delta.as_str(), o.is_final), ("", false));
    for bad in [
        r#"["i"]"#,
        r#"{"choices":[{"delta":null}]}"#,
        r#"{"choices":null}"#,
        r#"{"choices":[],"choices":[]}"#,
        r#"{"choices":[{"delta":{"content":"a","content":"b"}}]}"#,
        r#"{"usage":{"prompt_tokens":1,"completion_tokens":2}}"#,
        r#"{"usage":[1,2,3,4]}"#,
        r#"{"created":-1}"#,
    ] {
        assert!(parse_stream_payload(bad.as_bytes()).is_err(), "{bad}");
    }
    let o = parse_non_stream_response(br#"[[[["hi"]]]]"#).unwrap();
    assert_eq!(o.delta, "hi");
    assert!(parse_non_stream_response(br#"{"choices":[{"message":{}},{}]}"#).is_err());
}

#[test]
fn speech_documents_are_records() {
    let mut seq = 0;
    let e = parse_speech_audio_event("speech.audio.delta", br#"["AQI="]"#, &mut seq).unwrap().unwrap();
    assert_eq!(e.data, vec![1, 2]);
    let e = parse_speech_audio_event("speech.audio.error", br#"[null,["boom"]]"#, &mut seq);
    assert!(matches!(e, Some(Err(ClientError::Decode(m))) if m == "boom"));
    let e = parse_speech_audio_event("speech.audio.done", br#"{"error":[]}"#, &mut seq);
    assert!(matches!(e, Some(Err(_))));
    let e = parse_speech_audio_event("", br#"["",null,"x"]"#, &mut seq);
    assert!(matches!(e, Some(Err(_))));
    assert_eq!(parse_voice_list(br#"[["a","b"]]"#).unwrap(), vec!["a", "b"]);
    assert!(parse_voice_list(br#"{}"#).unwrap().is_empty());
    assert!(parse_voice_list(br#"{"voices":["a",null]}"#).is_err());
    assert!(parse_voice_list(br#"{"voices":null}"#).is_err());
}

#[test]
fn stored_messages_are_records() {
    let m = message_from_json(r#"["User","x"]"#).unwrap();
    assert_eq!((m.role, m.content.as_str()), (Role::User, "x"));
    let m = message_from_json(r#"{"role":{"Assistant":null},"content":"y"}"#).unwrap();
    assert_eq!((m.role, m.content.as_str()), (Role::Assistant, "y"));
    assert!(message_from_json(r#"{"role":{"Assistant":1},"content":"y"}"#).is_none());
    assert!(message_from_json(r#"{"role":"User","content":"y","role":"User"}"#).is_none());
    assert!(message_from_json(r#"["User"]"#).is_none());
}

#[test]
fn text_that_is_no_json_is_rejected_in_the_words_of_the_parser() {
    match extract_text("{", None) {
        Err(ClientError::Decode(m)) => assert_eq!(
            m,
            "decode ASR json response: EOF while parsing an object at line 1 column 1"
        ),
        _ => panic!("not rejected"),
    }
}
