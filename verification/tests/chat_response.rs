use chatgpt_functions::chat_response::{ChatResponse, Choice, Usage};
use chatgpt_functions::message::{FunctionCall, MessageBuilder};

#[test]
fn chat_response_test_last_content() {
    let message = MessageBuilder::new()
        .content("content".to_string())
        .build()
        .unwrap();
    let chat_response = ChatResponse {
        id: "id".to_string(),
        object: "object".to_string(),
        created: 0,
        choices: vec![Choice {
            index: 0,
            message: message.clone(),
            finish_reason: "finish_reason".to_string(),
        }],
        usage: Usage {
            prompt_tokens: 0,
            completion_tokens: 0,
            total_tokens: 0,
        },
    };
    assert_eq!(chat_response.content(), Some("content".to_string()));
}

#[test]
fn chat_response_test_last_function_call() {
    let message = MessageBuilder::new()
        .role("role".to_string())
        .content("content".to_string())
        .name("name".to_string())
        .function_call(FunctionCall {
            name: "name".to_string(),
            arguments: "{\"example\":\"this\"}".to_string(),
        })
        .build()
        .expect("Failed to build message");

    let chat_response = ChatResponse {
        id: "id".to_string(),
        object: "object".to_string(),
        created: 0,
        choices: vec![Choice {
            index: 0,
            message: message.clone(),
            finish_reason: "finish_reason".to_string(),
        }],
        usage: Usage {
            prompt_tokens: 0,
            completion_tokens: 0,
            total_tokens: 0,
        },
    };
    assert_eq!(
        chat_response.function_call(),
        Some(("name".to_string(), "{\"example\":\"this\"}".to_string()))
    );
}

#[test]
fn test_message() {
    let message = MessageBuilder::new()
        .role("role".to_string())
        .content("content".to_string())
        .name("name".to_string())
        .function_call(FunctionCall {
            name: "name".to_string(),
            arguments: "{\"example\":\"this\"}".to_string(),
        })
        .build()
        .expect("Failed to build message");

    let chat_response = ChatResponse {
        id: "id".to_string(),
        object: "object".to_string(),
        created: 0,
        choices: vec![Choice {
            index: 0,
            message: message.clone(),
            finish_reason: "finish_reason".to_string(),
        }],
        usage: Usage {
            prompt_tokens: 0,
            completion_tokens: 0,
            total_tokens: 0,
        },
    };
    assert_eq!(chat_response.message(), Some(message),);
}

#[test]
fn test_display_for_choice() {
    let message = MessageBuilder::new()
        .role("role".to_string())
        .content("content".to_string())
        .name("name".to_string())
        .function_call(FunctionCall {
            name: "name".to_string(),
            arguments: "{\"example\":\"this\"}".to_string(),
        })
        .build()
        .expect("Failed to build message");
    let choice = Choice {
        index: 0,
        message: message.clone(),
        finish_reason: "finish_reason".to_string(),
    };
    assert_eq!(
        choice.encode_for_wire(),
        "{\"index\":0,\"message\":{\"role\":\"role\",\"content\":\"content\",\"name\":\"name\",\"function_call\":{\"name\":\"name\",\"arguments\":\"{\\\"example\\\":\\\"this\\\"}\"}},\"finish_reason\":\"finish_reason\"}"
    );
}

#[test]
fn test_display_chat_response() {
    let message = MessageBuilder::new()
        .role("role".to_string())
        .content("content".to_string())
        .name("name".to_string())
        .function_call(FunctionCall {
            name: "name".to_string(),
            arguments: "{\"example\":\"this\"}".to_string(),
        })
        .build()
        .expect("Failed to build message");
    let chat_response = ChatResponse {
        id: "id".to_string(),
        object: "object".to_string(),
        created: 0,
        choices: vec![Choice {
            index: 0,
            message: message.clone(),
            finish_reason: "finish_reason".to_string(),
        }],
        usage: Usage {
            prompt_tokens: 0,
            completion_tokens: 0,
            total_tokens: 0,
        },
    };
    assert_eq!(
        chat_response.encode_for_wire(),
        "{\"id\":\"id\",\"object\":\"object\",\"created\":0,\"choices\":[{\"index\":0,\"message\":{\"role\":\"role\",\"content\":\"content\",\"name\":\"name\",\"function_call\":{\"name\":\"name\",\"arguments\":\"{\\\"example\\\":\\\"this\\\"}\"}},\"finish_reason\":\"finish_reason\"}],\"usage\":{\"prompt_tokens\":0,\"completion_tokens\":0,\"total_tokens\":0}}"
    );
}

#[test]
fn test_display_usage() {
    let usage = Usage {
        prompt_tokens: 0,
        completion_tokens: 0,
        total_tokens: 0,
    };
    assert_eq!(
        usage.encode_for_wire(),
        "{\"prompt_tokens\":0,\"completion_tokens\":0,\"total_tokens\":0}"
    );
}

#[test]
fn test_display_usage_large_counts() {
    let usage = Usage {
        prompt_tokens: 1234567890,
        completion_tokens: 19,
        total_tokens: 109,
    };
    assert_eq!(
        usage.encode_for_wire(),
        "{\"prompt_tokens\":1234567890,\"completion_tokens\":19,\"total_tokens\":109}"
    );
}
