use mpclipboard_generic_client::clip::Clip;
use mpclipboard_generic_client::codec::{auth_json, clip_json, parse_auth_reply, parse_clip};

#[test]
fn clip_renders_as_compact_json() {
    let clip = Clip::with_timestamp("hello", 1000);
    assert_eq!(clip_json(&clip), "{\"text\":\"hello\",\"timestamp\":1000}");
}

#[test]
fn auth_request_renders_as_compact_json() {
    assert_eq!(
        auth_json("laptop", "s3cret"),
        "{\"name\":\"laptop\",\"token\":\"s3cret\"}"
    );
}

#[test]
fn clip_round_trips() {
    let clip = Clip::with_timestamp("hello world", 123456789);
    let parsed = parse_clip(&clip_json(&clip)).unwrap();
    assert_eq!(parsed, clip);
}

#[test]
fn empty_text_round_trips() {
    let clip = Clip::with_timestamp("", 0);
    assert_eq!(clip_json(&clip), "{\"text\":\"\",\"timestamp\":0}");
    let parsed = parse_clip(&clip_json(&clip)).unwrap();
    assert_eq!(parsed, clip);
}

#[test]
fn multibyte_text_round_trips() {
    let clip = Clip::with_timestamp("héllo wörld — 日本語 🦀", 99);
    let parsed = parse_clip(&clip_json(&clip)).unwrap();
    assert_eq!(parsed, clip);
}

#[test]
fn special_characters_round_trip() {
    let clip = Clip::with_timestamp("a\"b\\c\nd\re\tf\u{0001}g/h", 5);
    let parsed = parse_clip(&clip_json(&clip)).unwrap();
    assert_eq!(parsed, clip);
}

#[test]
fn largest_timestamp_round_trips() {
    let clip = Clip::with_timestamp("max", u128::MAX);
    let parsed = parse_clip(&clip_json(&clip)).unwrap();
    assert_eq!(parsed, clip);
}

#[test]
fn parse_accepts_either_field_order() {
    let parsed = parse_clip("{\"timestamp\":2000,\"text\":\"world\"}").unwrap();
    assert_eq!(parsed, Clip::with_timestamp("world", 2000));
}

#[test]
fn parse_accepts_whitespace_between_tokens() {
    let parsed = parse_clip(" { \"text\" : \"w\" , \"timestamp\" : 7 } ").unwrap();
    assert_eq!(parsed, Clip::with_timestamp("w", 7));
}

#[test]
fn parse_decodes_escapes() {
    let parsed = parse_clip("{\"text\":\"a\\u0041\\n\\t\\\"\\\\\\/\",\"timestamp\":1}").unwrap();
    assert_eq!(parsed.text, "aA\n\t\"\\/");
}

#[test]
fn parse_rejects_bad_shapes() {
    // not an object
    assert!(parse_clip("42").is_none());
    assert!(parse_clip("").is_none());
    // missing or unknown fields
    assert!(parse_clip("{\"text\":\"a\"}").is_none());
    assert!(parse_clip("{\"text\":\"a\",\"stamp\":1}").is_none());
    assert!(parse_clip("{\"body\":\"a\",\"timestamp\":1}").is_none());
    // trailing garbage
    assert!(parse_clip("{\"text\":\"a\",\"timestamp\":1}x").is_none());
    // wrong value types
    assert!(parse_clip("{\"text\":1,\"timestamp\":1}").is_none());
    assert!(parse_clip("{\"text\":\"a\",\"timestamp\":\"1\"}").is_none());
    // negative number and leading zero
    assert!(parse_clip("{\"text\":\"a\",\"timestamp\":-1}").is_none());
    assert!(parse_clip("{\"text\":\"a\",\"timestamp\":01}").is_none());
    // unterminated string
    assert!(parse_clip("{\"text\":\"a,\"timestamp\":1}").is_none());
    // unknown escape and lone surrogate
    assert!(parse_clip("{\"text\":\"\\x\",\"timestamp\":1}").is_none());
    assert!(parse_clip("{\"text\":\"\\uD800\",\"timestamp\":1}").is_none());
    // raw control character inside the string
    assert!(parse_clip("{\"text\":\"a\nb\",\"timestamp\":1}").is_none());
}

#[test]
fn parse_rejects_timestamp_beyond_range() {
    // one past the largest 128-bit value
    assert!(parse_clip(
        "{\"text\":\"a\",\"timestamp\":340282366920938463463374607431768211456}"
    )
    .is_none());
    // exactly the largest value still parses
    let parsed = parse_clip(
        "{\"text\":\"a\",\"timestamp\":340282366920938463463374607431768211455}",
    )
    .unwrap();
    assert_eq!(parsed.timestamp, u128::MAX);
}

#[test]
fn auth_reply_parses() {
    assert_eq!(parse_auth_reply("{\"success\":true}"), Some(true));
    assert_eq!(parse_auth_reply("{\"success\":false}"), Some(false));
    assert_eq!(parse_auth_reply(" { \"success\" : true } "), Some(true));
    assert_eq!(parse_auth_reply("{\"success\":1}"), None);
    assert_eq!(parse_auth_reply("{\"ok\":true}"), None);
    assert_eq!(parse_auth_reply("{\"success\":true}}"), None);
    assert_eq!(parse_auth_reply(""), None);
}

#[test]
fn encoder_agrees_with_a_generic_json_library() {
    let clip = Clip::with_timestamp("mixed \"quotes\" and \\slashes\\ and ünïcode", 31337);
    let rendered = clip_json(&clip);
    let value: serde_json::Value = serde_json::from_str(&rendered).unwrap();
    assert_eq!(value["text"].as_str().unwrap(), clip.text);
    assert_eq!(value["timestamp"].as_u64().unwrap(), 31337u64);
}

#[test]
fn parser_accepts_generic_json_library_output() {
    let mut map = serde_json::Map::new();
    map.insert(
        "text".to_string(),
        serde_json::Value::String("from the server \u{2764}".to_string()),
    );
    map.insert(
        "timestamp".to_string(),
        serde_json::Value::Number(serde_json::Number::from(777u64)),
    );
    let rendered = serde_json::to_string(&serde_json::Value::Object(map)).unwrap();
    let parsed = parse_clip(&rendered).unwrap();
    assert_eq!(parsed, Clip::with_timestamp("from the server \u{2764}", 777));
}

#[test]
fn surrogate_pairs_decode_to_astral_characters() {
    let parsed = parse_clip("{\"text\":\"\\uD834\\uDD1E\",\"timestamp\":1}").unwrap();
    assert_eq!(parsed.text, "\u{1D11E}");
    // mixed with surrounding characters
    let parsed = parse_clip("{\"text\":\"a\\uD83E\\uDD80b\",\"timestamp\":2}").unwrap();
    assert_eq!(parsed.text, "a\u{1F980}b");
}

#[test]
fn unpaired_surrogates_are_rejected() {
    // a lone low surrogate
    assert!(parse_clip("{\"text\":\"\\uDC00\",\"timestamp\":1}").is_none());
    // a high surrogate followed by a non-surrogate escape
    assert!(parse_clip("{\"text\":\"\\uD834\\u0041\",\"timestamp\":1}").is_none());
    // a high surrogate followed by a plain character
    assert!(parse_clip("{\"text\":\"\\uD834x\",\"timestamp\":1}").is_none());
    // a high surrogate at the end of the string
    assert!(parse_clip("{\"text\":\"\\uD834\",\"timestamp\":1}").is_none());
}

#[test]
fn parser_accepts_escaped_astral_output_of_a_generic_json_library() {
    // ask serde_json to escape the astral character instead of sending raw UTF-8
    let rendered = "{\"text\":\"\\ud834\\udd1e\",\"timestamp\":5}";
    let value: serde_json::Value = serde_json::from_str(rendered).unwrap();
    assert_eq!(value["text"].as_str().unwrap(), "\u{1D11E}");
    let parsed = parse_clip(rendered).unwrap();
    assert_eq!(parsed.text, "\u{1D11E}");
}
