use chatgpt_functions::function_specification::{FunctionSpecification, Parameters, Property};
use chatgpt_functions::decode::decode_function_specification;

#[test]
fn test_function_specification_new() {
    let name = "get_current_weather".to_string();
    let description = "Get the current weather in a given location".to_string();
    let parameters = Parameters {
        type_: "object".to_string(),
        properties: Vec::new(),
        required: vec![],
    };
    let function_specification = FunctionSpecification::new(
        name.clone(),
        Some(description.clone()),
        Some(parameters.clone()),
    );
    assert_eq!(function_specification.name, name);
    assert_eq!(function_specification.description, Some(description));
    assert_eq!(function_specification.parameters, Some(parameters));
}

#[test]
fn test_deserialize_function_specification() {
    let json = r#"
        {
            "name": "get_current_weather",
            "description": "Get the current weather in a given location",
            "parameters": {
                "type": "object",
                "properties": {
                    "location": {
                        "type": "string",
                        "description": "The city and state, e.g. San Francisco, CA"
                    },
                    "unit": {
                        "type": "string",
                        "enum": ["celsius", "fahrenheit"]
                    }
                },
                "required": ["location"]
            }
        }
        "#;
    let function_specification: FunctionSpecification = decode_function_specification(json)
        .expect("Could not parse correctly the function specification");
    assert_eq!(function_specification.name, "get_current_weather");
    assert_eq!(
        function_specification.description,
        Some("Get the current weather in a given location".to_string())
    );
    let params = function_specification.parameters.expect("No parameters");
    assert_eq!(params.type_, "object");
    assert_eq!(params.properties.len(), 2);
    assert_eq!(params.required.len(), 1);

    let location = &params
        .properties
        .iter()
        .find(|p| p.0 == "location")
        .expect("Could not find location property")
        .1;
    assert_eq!(location.type_, "string");
    assert_eq!(
        location.description,
        Some("The city and state, e.g. San Francisco, CA".to_string())
    );

    let unit = &params
        .properties
        .iter()
        .find(|p| p.0 == "unit")
        .expect("Could not find unit property")
        .1;
    assert_eq!(unit.type_, "string");
    assert_eq!(unit.description, None);
    assert_eq!(
        unit.enum_,
        Some(vec!["celsius".to_string(), "fahrenheit".to_string()])
    );
}

#[test]
fn test_display_no_parameters() {
    let function_specification = FunctionSpecification::new(
        "get_current_weather".to_string(),
        Some("Get the current weather in a given location".to_string()),
        None,
    );
    assert_eq!(
        function_specification.encode_for_wire(),
        "{\"name\":\"get_current_weather\",\"description\":\"Get the current weather in a given location\",\"parameters\":{\"type\":\"object\",\"properties\":{}}}"
    );
}

#[test]
fn test_display_parameters_with_properties() {
    let properties = vec![(
        "unit".to_string(),
        Property {
            type_: "string".to_string(),
            description: None,
            enum_: Some(vec!["celsius".to_string(), "fahrenheit".to_string()]),
        },
    )];
    let parameters = Parameters {
        type_: "object".to_string(),
        properties,
        required: vec!["unit".to_string()],
    };
    assert_eq!(
        parameters.encode_for_wire(),
        "{\"type\":\"object\",\"properties\":{\"unit\":{\"type\":\"string\",\"enum\":[\"celsius\",\"fahrenheit\"]}},\"required\":[\"unit\"]}"
    );
}

#[test]
fn test_display_parameters_without_properties() {
    let parameters = Parameters {
        type_: "object".to_string(),
        properties: Vec::new(),
        required: vec!["location".to_string()],
    };
    assert_eq!(
        parameters.encode_for_wire(),
        "{\"type\":\"object\",\"required\":[\"location\"]}"
    );
}

#[test]
fn test_display_property_with_description_and_enum() {
    let property = Property {
        type_: "string".to_string(),
        description: Some("The city and state, e.g. San Francisco, CA".to_string()),
        enum_: Some(vec!["celsius".to_string(), "fahrenheit".to_string()]),
    };
    assert_eq!(
        property.encode_for_wire(),
        "{\"type\":\"string\",\"description\":\"The city and state, e.g. San Francisco, CA\",\"enum\":[\"celsius\",\"fahrenheit\"]}"
    );
}

#[test]
fn test_display_property_with_description() {
    let property = Property {
        type_: "string".to_string(),
        description: Some("The city and state, e.g. San Francisco, CA".to_string()),
        enum_: None,
    };
    assert_eq!(
        property.encode_for_wire(),
        "{\"type\":\"string\",\"description\":\"The city and state, e.g. San Francisco, CA\"}"
    );
}

#[test]
fn test_display_property_with_enum() {
    let property = Property {
        type_: "string".to_string(),
        description: None,
        enum_: Some(vec!["celsius".to_string(), "fahrenheit".to_string()]),
    };
    assert_eq!(
        property.encode_for_wire(),
        "{\"type\":\"string\",\"enum\":[\"celsius\",\"fahrenheit\"]}"
    );
}

#[test]
fn test_display_function_specification() {
    let properties = vec![(
        "unit".to_string(),
        Property {
            type_: "string".to_string(),
            description: None,
            enum_: Some(vec!["celsius".to_string(), "fahrenheit".to_string()]),
        },
    )];
    let parameters = Parameters {
        type_: "object".to_string(),
        properties,
        required: vec!["unit".to_string()],
    };
    let function_specification = FunctionSpecification {
        name: "get_current_weather".to_string(),
        description: Some("Get the current weather in a given location".to_string()),
        parameters: Some(parameters),
    };
    assert_eq!(
        function_specification.encode_for_wire(),
        "{\"name\":\"get_current_weather\",\"description\":\"Get the current weather in a given location\",\"parameters\":{\"type\":\"object\",\"properties\":{\"unit\":{\"type\":\"string\",\"enum\":[\"celsius\",\"fahrenheit\"]}},\"required\":[\"unit\"]}}"
    );
}

#[test]
fn test_decode_function_specification_without_name_fails() {
    assert_eq!(
        decode_function_specification("{\"description\":\"no name\"}"),
        None
    );
}
