use chatgpt_functions::decode::decode_message;
use chatgpt_functions::message::{FunctionCall, Message, MessageBuilder};

#[test]
fn test_display_message() {
    let mut message = Message::new("role".to_string());
    assert_eq!(
        message.encode_for_wire(),
        "{\"role\":\"role\",\"content\":\"\"}".to_string()
    );

    message.set_content(
        "content with \"quotes\" and a \nnewline, and other stuff like \\ \"\n\r\t\x08\x0C\""
            .to_string(),
    );
    assert_eq!(
        message.encode_for_wire(),
        "{\"role\":\"role\",\"content\":\"content with \\\"quotes\\\" and a \\nnewline, and other stuff like \\\\ \\\"\\n\\r\\t\\b\\f\\\"\"}"
            .to_string()
    );

    message.set_name("name".to_string());
    assert_eq!(
        message.encode_for_wire(),
        "{\"role\":\"role\",\"content\":\"content with \\\"quotes\\\" and a \\nnewline, and other stuff like \\\\ \\\"\\n\\r\\t\\b\\f\\\"\",\"name\":\"name\"}"
            .to_string()
    );

    let function_call = FunctionCall {
        name: "name".to_string(),
        arguments: "{\"example\":\"this\"}".to_string(),
    };
    message.set_function_call(function_call);
    assert_eq!(
        message.encode_for_wire(),
        "{\"role\":\"role\",\"content\":\"content with \\\"quotes\\\" and a \\nnewline, and other stuff like \\\\ \\\"\\n\\r\\t\\b\\f\\\"\",\"name\":\"name\",\"function_call\":{\"name\":\"name\",\"arguments\":\"{\\\"example\\\":\\\"this\\\"}\"}}".to_string()
    );
}

#[test]
fn test_display_function_call_no_name() {
    let function_call = FunctionCall {
        name: "".to_string(),
        arguments: "{\"example\":\"this\"}".to_string(),
    };
    assert_eq!(
        function_call.encode_for_wire(),
        "{\"name\":\"\",\"arguments\":\"{\\\"example\\\":\\\"this\\\"}\"}".to_string()
    );
}

#[test]
fn test_display_function_call_no_arguments() {
    let function_call = FunctionCall {
        name: "name".to_string(),
        arguments: "{}".to_string(),
    };
    assert_eq!(
        function_call.encode_for_wire(),
        "{\"name\":\"name\",\"arguments\":\"{}\"}".to_string()
    );
}

#[test]
fn test_display_function_call() {
    let function_call = FunctionCall {
        name: "name".to_string(),
        arguments: "{\"example\":\"this\"}".to_string(),
    };
    assert_eq!(
        function_call.encode_for_wire(),
        "{\"name\":\"name\",\"arguments\":\"{\\\"example\\\":\\\"this\\\"}\"}".to_string()
    );
}

#[test]
fn test_display_message_parsed_from_json_remove_newline() {
    let message = r#"{
            "role": "assistant",
            "content": null,
            "function_call": {
                "name": "completion_managed",
                "arguments": "{\n  \"content\": \"Hi model, how are you today?\"\n}"
            }
        }"#
    .to_string();
    let message_parsed: Message = decode_message(&message).expect("JSON was not well-formatted");

    assert_eq!(message_parsed.role, "assistant".to_string());
    assert_eq!(message_parsed.content, None);

    // The API asks for content to be present in the message, even when it's
    // an assistant message with a function call.
    assert_eq!(
        message_parsed.encode_for_wire(),
        "{\"role\":\"assistant\",\"content\":\"\",\"function_call\":{\"name\":\"completion_managed\",\"arguments\":\"{\\n  \\\"content\\\": \\\"Hi model, how are you today?\\\"\\n}\"}}".to_string()
    );

    // Decoded directly, the newlines inside the arguments are kept.
    assert_eq!(
        message_parsed.function_call,
        Some(FunctionCall {
            name: "completion_managed".to_string(),
            arguments: "{\n  \"content\": \"Hi model, how are you today?\"\n}".to_string(),
        })
    );
}

#[test]
fn test_message_new_user_message() {
    let message =
        Message::new_user_message("content with \"quotes\" and other' stuff \\".to_string());
    assert_eq!(
        message.encode_for_wire(),
        "{\"role\":\"user\",\"content\":\"content with \\\\\\\"quotes\\\\\\\" and other' stuff \\\\\\\\\"}".to_string()
    );
}

#[test]
fn test_message_builder() {
    let message = MessageBuilder::new()
        .content("content with \"quotes\" and other/' stuff \\".to_string())
        .name("name".to_string())
        .role("role".to_string())
        .function_call(FunctionCall {
            name: "name".to_string(),
            arguments: "{\"example\":\"this\"}".to_string(),
        })
        .build()
        .expect("MessageBuilder failed");

    assert_eq!(
        message.encode_for_wire(),
        "{\"role\":\"role\",\"content\":\"content with \\\\\\\"quotes\\\\\\\" and other/' stuff \\\\\\\\\",\"name\":\"name\",\"function_call\":{\"name\":\"name\",\"arguments\":\"{\\\"example\\\":\\\"this\\\"}\"}}".to_string()
    );
}

#[test]
fn test_decode_reply_with_null_content() {
    // A function-invoking reply keeps no content and preserves the newlines
    // embedded in the arguments.
    let reply = "{\"role\":\"assistant\",\"content\":null,\"function_call\":{\"name\":\"f\",\"arguments\":\"{\\n\\\"x\\\":1\\n}\"}}";
    let turn = decode_message(reply).expect("decoding failed");
    assert_eq!(turn.role, "assistant".to_string());
    assert_eq!(turn.content, None);
    assert_eq!(
        turn.function_call,
        Some(FunctionCall {
            name: "f".to_string(),
            arguments: "{\n\"x\":1\n}".to_string(),
        })
    );
}

#[test]
fn test_turn_round_trip_preserves_fields() {
    let mut message = Message::new("assistant".to_string());
    message.set_content("an answer with a \"quote\"".to_string());
    message.set_name("helper".to_string());
    message.set_function_call(FunctionCall {
        name: "lookup".to_string(),
        arguments: "{\"q\":\"x\"}".to_string(),
    });
    let decoded = decode_message(&message.encode_for_wire()).expect("decoding failed");
    assert_eq!(decoded, message);
}
