use micro_mcp::dispatch::{register_prompt, register_tool, MyServerHandler};
use micro_mcp::json::{obj_get, Json};
use micro_mcp::lifecycle::ServerContext;

/// A tool handler: arguments in, text out (or a raised message).
type ToolHandler = fn(&Json) -> Result<String, String>;

fn say_hello(_args: &Json) -> Result<String, String> {
    Ok(String::from("Hello World!"))
}

fn add_numbers(args: &Json) -> Result<String, String> {
    let fields = match args {
        Json::Obj(fields) => fields,
        _ => return Err(String::from("expected an arguments object")),
    };
    let a = match obj_get(fields, "a") {
        Some(Json::Int(n)) => *n,
        _ => return Err(String::from("missing a")),
    };
    let b = match obj_get(fields, "b") {
        Some(Json::Int(n)) => *n,
        _ => return Err(String::from("missing b")),
    };
    Ok((a + b).to_string())
}

fn echo_message(args: &Json) -> Result<String, String> {
    let fields = match args {
        Json::Obj(fields) => fields,
        _ => return Err(String::from("expected an arguments object")),
    };
    match obj_get(fields, "message") {
        Some(Json::Str(s)) => Ok(s.clone()),
        _ => Err(String::from("missing message")),
    }
}

#[test]
fn hello_world_tool_works() {
    let mut ctx: ServerContext<ToolHandler> = ServerContext::new();
    register_tool(
        &mut ctx.tools,
        String::from("say_hello_world"),
        Some(String::from("Says hello")),
        None,
        say_hello as ToolHandler,
    )
    .unwrap();

    let handler = MyServerHandler;
    let listing = handler.handle_list_tools_request(&ctx.tools).unwrap();
    assert_eq!(listing.tools.len(), 1);
    assert_eq!(listing.tools[0].name, "say_hello_world");
    assert_eq!(listing.next_cursor, None);

    let entry = handler
        .call_tool_lookup(&ctx.tools, &String::from("say_hello_world"))
        .unwrap();
    let outcome = (entry.handler)(&Json::Null);
    let result = handler.call_tool_finish(outcome);
    assert!(!result.is_error);
    assert_eq!(result.content, vec![String::from("Hello World!")]);
}

#[test]
fn reregistering_a_name_overwrites_instead_of_duplicating() {
    let mut ctx: ServerContext<ToolHandler> = ServerContext::new();
    register_tool(
        &mut ctx.tools,
        String::from("x"),
        Some(String::from("first")),
        None,
        say_hello as ToolHandler,
    )
    .unwrap();
    register_tool(
        &mut ctx.tools,
        String::from("x"),
        Some(String::from("second")),
        None,
        echo_message as ToolHandler,
    )
    .unwrap();

    let handler = MyServerHandler;
    let listing = handler.handle_list_tools_request(&ctx.tools).unwrap();
    assert_eq!(listing.tools.len(), 1);
    assert_eq!(listing.tools[0].name, "x");
    assert_eq!(listing.tools[0].description.as_deref(), Some("second"));
}

#[test]
fn tools_with_arguments_work() {
    let mut ctx: ServerContext<ToolHandler> = ServerContext::new();
    let schema = Json::Obj(vec![(
        String::from("required"),
        Json::Arr(vec![Json::Str(String::from("a")), Json::Str(String::from("b"))]),
    )]);
    register_tool(
        &mut ctx.tools,
        String::from("add_numbers"),
        None,
        Some(schema),
        add_numbers as ToolHandler,
    )
    .unwrap();
    register_tool(
        &mut ctx.tools,
        String::from("echo_message"),
        None,
        None,
        echo_message as ToolHandler,
    )
    .unwrap();

    let handler = MyServerHandler;
    let listing = handler.handle_list_tools_request(&ctx.tools).unwrap();
    assert_eq!(listing.tools.len(), 2);
    assert!(listing.tools.iter().any(|t| t.name == "add_numbers"));
    assert!(listing.tools.iter().any(|t| t.name == "echo_message"));

    let entry = handler
        .call_tool_lookup(&ctx.tools, &String::from("add_numbers"))
        .unwrap();
    assert_eq!(
        entry.tool.input_schema.required,
        vec![String::from("a"), String::from("b")]
    );
    let args = Json::Obj(vec![
        (String::from("a"), Json::Int(5)),
        (String::from("b"), Json::Int(7)),
    ]);
    let result = handler.call_tool_finish((entry.handler)(&args));
    assert!(!result.is_error);
    assert_eq!(result.content[0], "12");

    let entry = handler
        .call_tool_lookup(&ctx.tools, &String::from("echo_message"))
        .unwrap();
    let args = Json::Obj(vec![(String::from("message"), Json::Str(String::from("hi")))]);
    let result = handler.call_tool_finish((entry.handler)(&args));
    assert!(!result.is_error);
    assert_eq!(result.content[0], "hi");
}

#[test]
fn unknown_tool_error_names_the_tool() {
    let ctx: ServerContext<ToolHandler> = ServerContext::new();
    let handler = MyServerHandler;
    let err = handler
        .call_tool_lookup(&ctx.tools, &String::from("missing_tool"))
        .unwrap_err();
    let msg = err.message();
    assert_eq!(msg, "Unknown tool: missing_tool");
    assert!(msg.contains("missing_tool"));
}

#[test]
fn unknown_prompt_is_an_invalid_params_error() {
    let ctx: ServerContext<ToolHandler> = ServerContext::new();
    let handler = MyServerHandler;
    let err = handler
        .get_prompt_lookup(&ctx.prompts, &String::from("missing_prompt"))
        .unwrap_err();
    assert_eq!(err.message(), "Unknown prompt");
}

#[test]
fn failed_tool_handler_becomes_error_flagged_result() {
    let handler = MyServerHandler;
    let result = handler.call_tool_finish(Err(String::from("handler exploded")));
    assert!(result.is_error);
    assert_eq!(result.content, vec![String::from("handler exploded")]);
}

#[test]
fn poisoned_registry_fails_every_operation() {
    let mut ctx: ServerContext<ToolHandler> = ServerContext::new();
    ctx.tools.mark_poisoned();
    ctx.prompts.mark_poisoned();
    let handler = MyServerHandler;
    let err = handler.handle_list_tools_request(&ctx.tools).unwrap_err();
    assert_eq!(err.message(), "tools mutex poisoned");
    let err = register_tool(
        &mut ctx.tools,
        String::from("x"),
        None,
        None,
        say_hello as ToolHandler,
    )
    .unwrap_err();
    assert_eq!(err.message(), "tools mutex poisoned");
    let err = handler
        .call_tool_lookup(&ctx.tools, &String::from("x"))
        .unwrap_err();
    assert_eq!(err.message(), "tools mutex poisoned");
    let err = handler.handle_list_prompts_request(&ctx.prompts).unwrap_err();
    assert_eq!(err.message(), "prompts mutex poisoned");
    let err = handler
        .get_prompt_lookup(&ctx.prompts, &String::from("x"))
        .unwrap_err();
    assert_eq!(err.message(), "prompts mutex poisoned");
}

#[test]
fn overwriting_works_over_prior_contents() {
    // The overwrite law holds whatever the registry already held, not
    // only from a fresh registry.
    let mut ctx: ServerContext<ToolHandler> = ServerContext::new();
    register_tool(
        &mut ctx.tools,
        String::from("earlier"),
        None,
        None,
        say_hello as ToolHandler,
    )
    .unwrap();
    register_tool(
        &mut ctx.tools,
        String::from("x"),
        Some(String::from("first")),
        None,
        say_hello as ToolHandler,
    )
    .unwrap();
    register_tool(
        &mut ctx.tools,
        String::from("x"),
        Some(String::from("second")),
        None,
        echo_message as ToolHandler,
    )
    .unwrap();

    let handler = MyServerHandler;
    let listing = handler.handle_list_tools_request(&ctx.tools).unwrap();
    assert_eq!(listing.tools.len(), 2);
    let xs: Vec<_> = listing.tools.iter().filter(|t| t.name == "x").collect();
    assert_eq!(xs.len(), 1);
    assert_eq!(xs[0].description.as_deref(), Some("second"));
    assert!(listing.tools.iter().any(|t| t.name == "earlier"));
}

/// A prompt handler: arguments in, a message-list value out.
type PromptHandler = fn(&Json) -> Result<Json, String>;

fn text_content(text: String) -> Json {
    Json::Obj(vec![
        (String::from("type"), Json::Str(String::from("text"))),
        (String::from("text"), Json::Str(text)),
    ])
}

fn greeting(args: &Json) -> Result<Json, String> {
    let fields = match args {
        Json::Obj(fields) => fields,
        _ => return Err(String::from("expected an arguments object")),
    };
    let name = match obj_get(fields, "name") {
        Some(Json::Str(s)) => s.clone(),
        _ => return Err(String::from("missing name")),
    };
    let hello = format!("Hello {}", name);
    Ok(Json::Arr(vec![
        Json::Obj(vec![
            (String::from("role"), Json::Str(String::from("user"))),
            (String::from("content"), text_content(hello)),
        ]),
        Json::Obj(vec![
            (String::from("role"), Json::Str(String::from("assistant"))),
            (String::from("content"), text_content(String::from("How can I help?"))),
        ]),
    ]))
}

#[test]
fn prompts_feature_works() {
    let mut ctx: ServerContext<PromptHandler> = ServerContext::new();
    let arguments = Json::Arr(vec![Json::Obj(vec![
        (String::from("name"), Json::Str(String::from("name"))),
        (String::from("required"), Json::Bool(true)),
    ])]);
    register_prompt(
        &mut ctx.prompts,
        String::from("greeting"),
        Some(String::from("A friendly greeting")),
        Some(arguments),
        greeting as PromptHandler,
    )
    .unwrap();

    let handler = MyServerHandler;
    let listing = handler.handle_list_prompts_request(&ctx.prompts).unwrap();
    assert_eq!(listing.prompts.len(), 1);
    assert_eq!(listing.prompts[0].name, "greeting");
    assert_eq!(listing.prompts[0].arguments.len(), 1);
    assert_eq!(listing.prompts[0].arguments[0].name, "name");

    let entry = handler
        .get_prompt_lookup(&ctx.prompts, &String::from("greeting"))
        .unwrap();
    let args = micro_mcp::dispatch::prompt_args_to_json(&vec![(
        String::from("name"),
        String::from("Codex"),
    )]);
    let value = (entry.handler)(&args).unwrap();
    let result = handler
        .get_prompt_finish(&entry.prompt.description, Ok(&value))
        .unwrap();
    assert_eq!(result.messages.len(), 2);
    assert_eq!(result.messages[0].role, "user");
    let content = match &result.messages[0].content {
        Json::Obj(fields) => fields,
        other => panic!("unexpected content shape: {:?}", other),
    };
    assert_eq!(obj_get(content, "text"), Some(&Json::Str(String::from("Hello Codex"))));
    assert_eq!(result.description.as_deref(), Some("A friendly greeting"));
}

#[test]
fn failed_prompt_handler_is_a_handler_error() {
    let handler = MyServerHandler;
    let err = handler
        .get_prompt_finish(&None, Err(String::from("boom")))
        .unwrap_err();
    assert_eq!(err.message(), "boom");
}

#[test]
fn malformed_prompt_messages_are_marshalling_errors() {
    let handler = MyServerHandler;
    let err = handler
        .get_prompt_finish(&None, Ok(&Json::Int(3)))
        .unwrap_err();
    assert!(err.message().contains("marshalling failed"));

    let missing_role = Json::Arr(vec![Json::Obj(vec![(
        String::from("content"),
        Json::Str(String::from("hi")),
    )])]);
    let err = handler.get_prompt_finish(&None, Ok(&missing_role)).unwrap_err();
    assert!(err.message().contains("missing field `role`"));

    let missing_content = Json::Arr(vec![Json::Obj(vec![(
        String::from("role"),
        Json::Str(String::from("user")),
    )])]);
    let err = handler
        .get_prompt_finish(&None, Ok(&missing_content))
        .unwrap_err();
    assert!(err.message().contains("missing field `content`"));
}

#[test]
fn empty_registries_list_nothing() {
    let ctx: ServerContext<ToolHandler> = ServerContext::new();
    let handler = MyServerHandler;
    let tools = handler.handle_list_tools_request(&ctx.tools).unwrap();
    assert!(tools.tools.is_empty());
    let prompts = handler.handle_list_prompts_request(&ctx.prompts).unwrap();
    assert!(prompts.prompts.is_empty());
}

#[test]
fn prompt_args_to_json_builds_a_string_object() {
    let args = vec![
        (String::from("a"), String::from("1")),
        (String::from("b"), String::from("two")),
    ];
    let j = micro_mcp::dispatch::prompt_args_to_json(&args);
    assert_eq!(
        j,
        Json::Obj(vec![
            (String::from("a"), Json::Str(String::from("1"))),
            (String::from("b"), Json::Str(String::from("two"))),
        ])
    );
    assert_eq!(
        micro_mcp::dispatch::prompt_args_to_json(&vec![]),
        Json::Obj(vec![])
    );
}
