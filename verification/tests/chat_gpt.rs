use chatgpt_functions::chat_gpt::{parse_removing_newlines, reply_message, ChatGPTBuilder};
use chatgpt_functions::chat_response::{ChatResponse, Usage};
use chatgpt_functions::error::ChatError;
use chatgpt_functions::function_specification::{FunctionSpecification, Parameters};
use chatgpt_functions::message::{FunctionCall, Message};

#[test]
fn test_chat_gpt_new() {
    let chat_gpt = ChatGPTBuilder::new()
        .openai_api_token("123".to_string())
        .build()
        .expect("Failed to create ChatGPT");
    assert_eq!(chat_gpt.session_id.len(), 36);
    assert_eq!(chat_gpt.chat_context.model, "gpt-3.5-turbo-0613");
    assert_eq!(chat_gpt.model, "gpt-3.5-turbo-0613");
}

#[test]
fn test_chat_gpt_new_with_everything() {
    let chat_gpt = ChatGPTBuilder::new()
        .session_id("session_id".to_string())
        .model("model".to_string())
        .openai_api_token("1234".to_string())
        .build()
        .expect("Failed to create ChatGPT");
    assert_eq!(chat_gpt.session_id, "session_id");
    assert_eq!(chat_gpt.openai_api_token, "1234");
    assert_eq!(chat_gpt.chat_context.model, "model");
}

#[test]
fn test_chat_gpt_push_message() {
    let mut chat_gpt = ChatGPTBuilder::new()
        .openai_api_token("key".to_string())
        .build()
        .expect("Failed to create ChatGPT");
    let message = Message::new_user_message("content".to_string());
    chat_gpt.push_message(message);
    assert_eq!(chat_gpt.chat_context.messages.len(), 1);
}

#[test]
fn test_chat_gpt_set_message() {
    let mut chat_gpt = ChatGPTBuilder::new()
        .openai_api_token("key".to_string())
        .build()
        .expect("Failed to create ChatGPT");
    let message = Message::new_user_message("content".to_string());
    chat_gpt.set_messages(vec![message]);
    assert_eq!(chat_gpt.chat_context.messages.len(), 1);
}

#[test]
fn test_chat_gpt_push_function() {
    let mut chat_gpt = ChatGPTBuilder::new()
        .openai_api_token("key".to_string())
        .build()
        .expect("Failed to create ChatGPT");
    let function = FunctionSpecification::new("function".to_string(), None, None);
    chat_gpt.push_function(function);
    assert_eq!(chat_gpt.chat_context.functions.len(), 1);
}

#[test]
fn test_chat_gpt_set_function() {
    let mut chat_gpt = ChatGPTBuilder::new()
        .openai_api_token("key".to_string())
        .build()
        .expect("Failed to create ChatGPT");
    let function = FunctionSpecification::new(
        "function".to_string(),
        Some("Test function".to_string()),
        Some(Parameters {
            type_: "string".to_string(),
            properties: Vec::new(),
            required: vec![],
        }),
    );
    chat_gpt.set_functions(vec![function]);
    assert_eq!(chat_gpt.chat_context.functions.len(), 1);

    let function = chat_gpt
        .chat_context
        .functions
        .get(0)
        .expect("Failed to get the function");
    assert_eq!(function.name, "function");
    assert_eq!(
        function
            .description
            .as_ref()
            .expect("Failed to get the description"),
        "Test function"
    );
    assert_eq!(
        function
            .parameters
            .as_ref()
            .expect("Failed to get the parameters")
            .type_,
        "string"
    );
}

#[test]
fn test_parse_removing_newlines() {
    let r = r#"{
    "id": "chatcmpl-7Ut7jsNlTUO9k9L5kBF0uDAyG19pK",
    "object": "chat.completion",
    "created": 1687596091,
    "model": "gpt-3.5-turbo-0613",
    "choices": [
        {
        "index": 0,
        "message": {
            "role": "assistant",
            "content": null,
            "function_call": {
                "name": "get_current_weather",
                "arguments": "{\n  \"location\": \"Madrid, Spain\"\n}"
            }
        },
        "finish_reason": "function_call"
        }
    ],
    "usage": {
        "prompt_tokens": 90,
        "completion_tokens": 19,
        "total_tokens": 109
    }
}"#
    .to_string();
    let response = parse_removing_newlines(r).expect("Failed to parse");
    let message = response
        .choices
        .first()
        .expect("There is no choice")
        .message
        .clone();

    assert_eq!(message.role, "assistant");
    assert_eq!(message.content, None);
    assert_eq!(message.name, None);
    assert_eq!(
        message.function_call,
        Some(FunctionCall {
            name: "get_current_weather".to_string(),
            arguments: "{\n  \"location\": \"Madrid, Spain\"\n}".to_string(),
        })
    );
}

#[test]
fn test_fix_context_when_function_replied_with_content() {
    let r = r#"{"id":"chatcmpl-7VneSVRn9qJ1crw3m0V0kmnCq8Pnn","object":"chat.completion","created":1687813384,"choices":[{"index":0,"message":{"role":"assistant","function_call":{"name":"completion_managed","arguments":"{
    \"content\": \"Hi, model!\"
}"}},"finish_reason":"function_call"}],"usage":{"prompt_tokens":61,"completion_tokens":18,"total_tokens":79}}"#.to_string();
    let response = parse_removing_newlines(r).expect("Failed to parse");
    let message = response
        .choices
        .last()
        .expect("There is no choice")
        .message
        .clone();

    assert_eq!(message.role, "assistant");
    assert_eq!(message.content, None);
    assert_eq!(message.name, None);
    assert_eq!(
        message.function_call,
        Some(FunctionCall {
            name: "completion_managed".to_string(),
            arguments: "{    \"content\": \"Hi, model!\"}".to_string(),
        })
    );
}

#[test]
fn chat_gpt_test_last_content() {
    let mut chat_gpt = ChatGPTBuilder::new()
        .openai_api_token("key".to_string())
        .build()
        .expect("Failed to create ChatGPT");
    let message = Message::new_user_message("content".to_string());
    chat_gpt.push_message(message);
    let message = Message::new_user_message("content2".to_string());
    chat_gpt.push_message(message);
    let message = Message::new_user_message("content3".to_string());
    chat_gpt.push_message(message);
    assert_eq!(chat_gpt.last_content(), Some("content3".to_string()));
}

#[test]
fn test_last_content_empty() {
    let chat_gpt = ChatGPTBuilder::new()
        .openai_api_token("key".to_string())
        .build()
        .expect("Failed to create ChatGPT");
    assert_eq!(chat_gpt.last_content(), None);
}

#[test]
fn test_last_function() {
    let mut chat_gpt = ChatGPTBuilder::new()
        .openai_api_token("key".to_string())
        .build()
        .expect("Failed to create ChatGPT");
    let mut msg = Message::new("function".to_string());
    msg.set_function_call(FunctionCall {
        name: "function".to_string(),
        arguments: "1".to_string(),
    });
    chat_gpt.push_message(msg);
    let mut msg = Message::new("function2".to_string());
    msg.set_function_call(FunctionCall {
        name: "function2".to_string(),
        arguments: "2".to_string(),
    });
    chat_gpt.push_message(msg);
    let mut msg = Message::new("function3".to_string());
    msg.set_function_call(FunctionCall {
        name: "function3".to_string(),
        arguments: "3".to_string(),
    });
    chat_gpt.push_message(msg);
    assert_eq!(
        chat_gpt.last_function(),
        Some(("function3".to_string(), "3".to_string()))
    );
}

#[test]
fn test_build_without_token_fails() {
    let result = ChatGPTBuilder::new().build();
    assert_eq!(result.err(), Some(ChatError::MissingApiToken));
}

#[test]
fn test_parse_removing_newlines_rejects_garbage() {
    let result = parse_removing_newlines("not json at all".to_string());
    assert_eq!(
        result.err(),
        Some(ChatError::Decode("not json at all".to_string()))
    );
}

#[test]
fn test_reply_message_without_choice_fails() {
    let response = ChatResponse {
        id: "id".to_string(),
        object: "object".to_string(),
        created: 0,
        choices: vec![],
        usage: Usage {
            prompt_tokens: 0,
            completion_tokens: 0,
            total_tokens: 0,
        },
    };
    assert_eq!(
        reply_message(&response).err(),
        Some(ChatError::MissingChoice)
    );
}

#[test]
fn test_fold_response_appends_first_choice() {
    let mut chat_gpt = ChatGPTBuilder::new()
        .openai_api_token("key".to_string())
        .build()
        .expect("Failed to create ChatGPT");
    let r = "{\"id\":\"i\",\"object\":\"o\",\"created\":1,\"choices\":[{\"index\":0,\"message\":{\"role\":\"assistant\",\"content\":\"hello there\"},\"finish_reason\":\"stop\"}],\"usage\":{\"prompt_tokens\":1,\"completion_tokens\":2,\"total_tokens\":3}}";
    let response = parse_removing_newlines(r.to_string()).expect("Failed to parse");
    chat_gpt.fold_response(&response);
    assert_eq!(chat_gpt.chat_context.messages.len(), 1);
    assert_eq!(chat_gpt.last_content(), Some("hello there".to_string()));
}

#[test]
fn test_parse_skips_unknown_fields() {
    // Unknown members of any shape are skipped: strings, numbers, nested
    // objects and arrays, booleans and nulls.
    let r = "{\"id\":\"i\",\"model\":\"m\",\"flags\":[true,false,null],\"meta\":{\"a\":{\"b\":[1,2]}},\"object\":\"o\",\"created\":7,\"choices\":[],\"usage\":{\"prompt_tokens\":1,\"completion_tokens\":2,\"total_tokens\":3,\"cost\":0.5}}";
    let response = parse_removing_newlines(r.to_string()).expect("Failed to parse");
    assert_eq!(response.id, "i");
    assert_eq!(response.created, 7);
    assert_eq!(response.choices.len(), 0);
    assert_eq!(response.usage.total_tokens, 3);
}

#[test]
fn test_parse_tolerates_whitespace_everywhere() {
    let r = " { \"id\" : \"i\" ,\t\"object\" : \"o\" , \"created\" : 1 , \"choices\" : [ ] , \"usage\" : { \"prompt_tokens\" : 0 , \"completion_tokens\" : 0 , \"total_tokens\" : 0 } } ";
    let response = parse_removing_newlines(r.to_string()).expect("Failed to parse");
    assert_eq!(response.object, "o");
}

#[test]
fn test_request_body_matches_context_encoding() {
    let mut chat_gpt = ChatGPTBuilder::new()
        .model("m".to_string())
        .openai_api_token("key".to_string())
        .build()
        .expect("Failed to create ChatGPT");
    chat_gpt.push_message(Message::new_user_message("Hello".to_string()));
    assert_eq!(
        chat_gpt.request_body(),
        "{\"model\":\"m\",\"messages\":[{\"role\":\"user\",\"content\":\"Hello\"}]}"
    );
}
