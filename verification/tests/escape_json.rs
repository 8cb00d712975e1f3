use chatgpt_functions::escape_json::EscapeJson;

#[test]
fn test_escape_json() {
    assert_eq!("\"".escape_json(), "\\\"");
    assert_eq!("\\".escape_json(), "\\\\");
    assert_eq!("\n".escape_json(), "\\n");
    assert_eq!("\r".escape_json(), "\\r");
    assert_eq!("\t".escape_json(), "\\t");
    assert_eq!("\x08".escape_json(), "\\b");
    assert_eq!("\x0C".escape_json(), "\\f");
    assert_eq!(
        "\"\\n\\r\\t\x08\x0C".escape_json(),
        "\\\"\\\\n\\\\r\\\\t\\b\\f"
    );
}

#[test]
fn test_escape_json_string() {
    assert_eq!("\"".to_string().escape_json(), "\\\"");
    assert_eq!("\\".to_string().escape_json(), "\\\\");
    assert_eq!("\n".to_string().escape_json(), "\\n");
    assert_eq!("\r".to_string().escape_json(), "\\r");
    assert_eq!("\t".to_string().escape_json(), "\\t");
    assert_eq!("\x08".to_string().escape_json(), "\\b");
    assert_eq!("\x0C".to_string().escape_json(), "\\f");
    assert_eq!(
        "\"\\n\\r\\t\x08\x0C".to_string().escape_json(),
        "\\\"\\\\n\\\\r\\\\t\\b\\f"
    );
}

#[test]
fn test_escape_json_string_with_quotes() {
    assert_eq!("\"\"\"".to_string().escape_json(), "\\\"\\\"\\\"");
    assert_eq!(
        "\"\"\"\"\"".to_string().escape_json(),
        "\\\"\\\"\\\"\\\"\\\""
    );
}

#[test]
fn test_escape_json_string_with_text() {
    let text = "text with \"quotes\" and a \nnewline";
    assert_eq!(
        text.to_string().escape_json(),
        "text with \\\"quotes\\\" and a \\nnewline"
    );
}

#[test]
fn test_escape_json_non_ascii_passes_through() {
    assert_eq!("héllo wörld ☃".escape_json(), "héllo wörld ☃");
}

#[test]
fn test_escape_round_trip_through_decoder() {
    // The escaped text, placed between quotes inside a turn, decodes back
    // to the original characters exactly.
    let original = "line one\nline two\t\"quoted\" \\ backslash";
    let mut message = chatgpt_functions::message::Message::new("user".to_string());
    message.set_content(original.to_string());
    let wire = message.encode_for_wire();
    let decoded = chatgpt_functions::decode::decode_message(&wire).expect("decoding failed");
    assert_eq!(decoded.content, Some(original.to_string()));
}
