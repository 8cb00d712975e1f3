use chatgpt_functions::chat_context::ChatContext;
use chatgpt_functions::function_specification::{FunctionSpecification, Parameters, Property};
use chatgpt_functions::message::{FunctionCall, Message, MessageBuilder};

#[test]
fn test_display_for_chat_context() {
    let mut chat_context = ChatContext::new("test_model".to_string());
    let message = MessageBuilder::new()
        .role("role".to_string())
        .content("Hello".to_string())
        .build()
        .expect("Failed to build message");
    chat_context.push_message(message);
    let message = MessageBuilder::new()
        .role("bot".to_string())
        .content("Hi".to_string())
        .build()
        .expect("Failed to build message");
    chat_context.push_message(message);
    assert_eq!(
        chat_context.encode_for_wire(),
        "{\"model\":\"test_model\",\"messages\":[{\"role\":\"role\",\"content\":\"Hello\"},{\"role\":\"bot\",\"content\":\"Hi\"}]}"
    );
}

#[test]
fn test_display_chat_context_with_functions() {
    let mut chat_context = ChatContext::new("test_model".to_string());

    // Add a function to the chat context
    let properties = vec![(
        "location".to_string(),
        Property {
            type_: "string".to_string(),
            description: Some("a dummy string".to_string()),
            enum_: None,
        },
    )];
    let function = FunctionSpecification {
        name: "test_function".to_string(),
        description: Some("a dummy function to test the chat context".to_string()),
        parameters: Some(Parameters {
            type_: "object".to_string(),
            properties,
            required: vec!["location".to_string()],
        }),
    };
    chat_context.push_function(function);

    // Add a message to the chat context
    let message = MessageBuilder::new()
        .role("test".to_string())
        .content("hi".to_string())
        .name("test_function".to_string())
        .build()
        .expect("Failed to build message");
    chat_context.push_message(message);

    // The context prints the model, the messages, and the functions
    assert_eq!(
        chat_context.encode_for_wire(),
        "{\"model\":\"test_model\",\"messages\":[{\"role\":\"test\",\"content\":\"hi\",\"name\":\"test_function\"}],\"functions\":[{\"name\":\"test_function\",\"description\":\"a dummy function to test the chat context\",\"parameters\":{\"type\":\"object\",\"properties\":{\"location\":{\"type\":\"string\",\"description\":\"a dummy string\"}},\"required\":[\"location\"]}}]}"
    );
}

#[test]
fn chat_context_test_last_content() {
    let mut chat_context = ChatContext::new("model".to_string());

    // Test with no messages
    assert_eq!(chat_context.last_content(), None);

    // Test with a message with no content
    let message = MessageBuilder::new()
        .role("role".to_string())
        .name("name".to_string())
        .build()
        .expect("Failed to build message");
    chat_context.push_message(message);
    assert_eq!(chat_context.last_content(), None);

    // Test with a message with content
    let message = MessageBuilder::new()
        .role("role".to_string())
        .content("content".to_string())
        .build()
        .expect("Failed to build message");
    chat_context.push_message(message);
    assert_eq!(chat_context.last_content(), Some("content".to_string()));
}

#[test]
fn chat_context_test_last_function_call() {
    let mut chat_context = ChatContext::new("model".to_string());

    // Test with no messages
    assert_eq!(chat_context.last_content(), None);

    // Test with a message with no function call
    let message = MessageBuilder::new()
        .role("role".to_string())
        .name("name".to_string())
        .build()
        .expect("Failed to build message");
    chat_context.push_message(message);
    assert_eq!(chat_context.last_content(), None);

    // Test with a message with function call
    let message = MessageBuilder::new()
        .role("role".to_string())
        .function_call(FunctionCall {
            name: "function".to_string(),
            arguments: "arguments".to_string(),
        })
        .build()
        .expect("Failed to build message");
    chat_context.push_message(message);
    assert_eq!(
        chat_context.last_function_call(),
        Some(("function".to_string(), "arguments".to_string()))
    );
}

#[test]
fn test_empty_context_has_no_messages_key() {
    // A context with zero turns encodes without any "messages" key at all.
    let chat_context = ChatContext::new("m".to_string());
    assert_eq!(chat_context.encode_for_wire(), "{\"model\":\"m\"}");
}

#[test]
fn test_single_user_turn_encoding() {
    let mut chat_context = ChatContext::new("m".to_string());
    let message = MessageBuilder::new()
        .role("user".to_string())
        .content("Hello".to_string())
        .build()
        .expect("Failed to build message");
    chat_context.push_message(message);
    assert_eq!(
        chat_context.encode_for_wire(),
        "{\"model\":\"m\",\"messages\":[{\"role\":\"user\",\"content\":\"Hello\"}]}"
    );
}

#[test]
fn test_last_function_call_takes_last_of_three() {
    let mut chat_context = ChatContext::new("m".to_string());
    let mut i = 0;
    for (name, arguments) in [("first", "{\"a\":1}"), ("second", "{\"b\":2}"), ("third", "{\"c\":3}")] {
        let mut message = Message::new("assistant".to_string());
        message.set_function_call(FunctionCall {
            name: name.to_string(),
            arguments: arguments.to_string(),
        });
        chat_context.push_message(message);
        i += 1;
    }
    assert_eq!(i, 3);
    assert_eq!(
        chat_context.last_function_call(),
        Some(("third".to_string(), "{\"c\":3}".to_string()))
    );
}

#[test]
fn test_set_messages_overwrites_history() {
    let mut chat_context = ChatContext::new("m".to_string());
    chat_context.push_message(Message::new_user_message("old".to_string()));
    chat_context.set_messages(vec![Message::new_user_message("new".to_string())]);
    assert_eq!(chat_context.messages.len(), 1);
    assert_eq!(chat_context.last_content(), Some("new".to_string()));
}

#[test]
fn test_set_function_call_directive_encoding() {
    let mut chat_context = ChatContext::new("m".to_string());
    chat_context.set_function_call("auto".to_string());
    assert_eq!(
        chat_context.encode_for_wire(),
        "{\"model\":\"m\",\"function_call\":\"auto\"}"
    );
}
