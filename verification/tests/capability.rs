use micro_mcp::capability::{parse_create_message_params, RubyMcpServer, RuntimeInfo};
use micro_mcp::dispatch::MyServerHandler;
use micro_mcp::json::Json;

fn info() -> RuntimeInfo {
    RuntimeInfo { initialized: true, sampling: Some(false) }
}

fn valid_params() -> Json {
    Json::Obj(vec![
        (
            String::from("messages"),
            Json::Arr(vec![Json::Obj(vec![
                (String::from("role"), Json::Str(String::from("user"))),
                (String::from("content"), Json::Str(String::from("hello"))),
            ])]),
        ),
        (String::from("maxTokens"), Json::Int(64)),
    ])
}

#[test]
fn accessors_answer_while_valid() {
    let cap = RubyMcpServer::new(info());
    assert_eq!(cap.is_initialized(), Ok(true));
    assert_eq!(cap.client_supports_sampling(), Ok(Some(false)));
    let params = cap.create_message(&valid_params()).unwrap();
    assert_eq!(params.max_tokens, 64);
}

#[test]
fn runtime_lifetime_enforced() {
    // A handler stores the capability; after the dispatcher invalidates it,
    // every accessor on the stored object must fail with the distinguished
    // invalidity error.
    let mut stored = RubyMcpServer::new(info());
    assert_eq!(stored.is_initialized(), Ok(true));

    stored.invalidate();

    let err = stored.is_initialized().unwrap_err();
    let msg = err.message();
    assert!(msg.contains("McpServer reference"));
    assert!(msg.contains("no longer valid"));

    let err = stored.client_supports_sampling().unwrap_err();
    assert!(err.message().contains("no longer valid"));

    let err = stored.create_message(&valid_params()).unwrap_err();
    assert!(err.message().contains("no longer valid"));

    // Invalidation is idempotent.
    stored.invalidate();
    let err = stored.is_initialized().unwrap_err();
    assert!(err.message().contains("no longer valid"));
}

#[test]
fn client_supports_sampling_exposed() {
    // A tool that reports the client's sampling support renders it as text.
    let cap = RubyMcpServer::new(info());
    let answer = match cap.client_supports_sampling() {
        Ok(Some(b)) => b.to_string(),
        Ok(None) => String::from("unknown"),
        Err(e) => e.message(),
    };
    let result = MyServerHandler.call_tool_finish(Ok(answer));
    assert!(!result.is_error);
    assert_eq!(result.content[0], "false");
}

#[test]
fn create_message_missing_required_field_fails() {
    let cap = RubyMcpServer::new(info());

    let no_messages = Json::Obj(vec![(String::from("maxTokens"), Json::Int(64))]);
    let err = cap.create_message(&no_messages).unwrap_err();
    assert!(err.message().contains("missing field `messages`"));

    let no_max_tokens = Json::Obj(vec![(
        String::from("messages"),
        Json::Arr(vec![]),
    )]);
    let err = cap.create_message(&no_max_tokens).unwrap_err();
    assert!(err.message().contains("missing field `maxTokens`"));
}

#[test]
fn create_message_exposed() {
    // A tool handler that calls create_message with bad parameters reports
    // the failure; the call-tool result carries it as an error flag, the
    // server does not crash.
    let cap = RubyMcpServer::new(info());
    let bad = Json::Obj(vec![]);
    let outcome: Result<String, String> = match cap.create_message(&bad) {
        Ok(_) => Ok(String::from("unexpected")),
        Err(e) => Err(e.message()),
    };
    let result = MyServerHandler.call_tool_finish(outcome);
    assert!(result.is_error);
    assert!(result.content[0].contains("missing field"));
}

#[test]
fn create_message_params_validation_details() {
    let err = parse_create_message_params(&Json::Int(1)).unwrap_err();
    assert!(err.message().contains("not an object"));

    let wrong_messages = Json::Obj(vec![
        (String::from("messages"), Json::Int(5)),
        (String::from("maxTokens"), Json::Int(64)),
    ]);
    let err = parse_create_message_params(&wrong_messages).unwrap_err();
    assert!(err.message().contains("invalid field `messages`"));

    let wrong_tokens = Json::Obj(vec![
        (String::from("messages"), Json::Arr(vec![])),
        (String::from("maxTokens"), Json::Str(String::from("many"))),
    ]);
    let err = parse_create_message_params(&wrong_tokens).unwrap_err();
    assert!(err.message().contains("invalid field `maxTokens`"));

    let ok = parse_create_message_params(&valid_params()).unwrap();
    assert_eq!(ok.max_tokens, 64);
    match ok.messages {
        Json::Arr(items) => assert_eq!(items.len(), 1),
        other => panic!("messages should stay an array: {:?}", other),
    }
}
