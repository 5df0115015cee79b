use micro_mcp::error::McpError;

#[test]
fn error_messages_render_exactly() {
    assert_eq!(
        McpError::UnknownTool(String::from("adder")).message(),
        "Unknown tool: adder"
    );
    assert_eq!(McpError::UnknownPrompt.message(), "Unknown prompt");
    assert_eq!(
        McpError::Marshal(String::from("bad value")).message(),
        "marshalling failed: bad value"
    );
    assert_eq!(
        McpError::CapabilityInvalid.message(),
        "McpServer reference is no longer valid"
    );
    assert_eq!(
        McpError::LockPoisoned(String::from("tools")).message(),
        "tools mutex poisoned"
    );
    assert_eq!(
        McpError::Handler(String::from("boom")).message(),
        "boom"
    );
}
