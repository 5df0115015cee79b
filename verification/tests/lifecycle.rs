use micro_mcp::json::Json;
use micro_mcp::lifecycle::{shutdown_flag, shutdown_server, ServerContext};

type ToolHandler = fn(&Json) -> Result<String, String>;

#[test]
fn stop_before_start_is_a_harmless_no_op() {
    let mut ctx: ServerContext<ToolHandler> = ServerContext::new();
    assert!(!shutdown_flag(&ctx));
    assert_eq!(shutdown_server(&mut ctx), "Ok");
    assert!(shutdown_flag(&ctx));
    // Idempotent: a second stop changes nothing and still reports Ok.
    assert_eq!(shutdown_server(&mut ctx), "Ok");
    assert!(shutdown_flag(&ctx));
}

#[test]
fn start_resets_the_flag_and_advertises_metadata() {
    let mut ctx: ServerContext<ToolHandler> = ServerContext::new();
    shutdown_server(&mut ctx);
    assert!(shutdown_flag(&ctx));
    let info = ctx.begin_start(String::from("2025-06-18"));
    assert!(!shutdown_flag(&ctx));
    assert_eq!(info.name, "Hello World MCP Server");
    assert_eq!(info.version, "0.1.0");
    assert_eq!(info.instructions, "server instructions...");
    assert_eq!(info.protocol_version, "2025-06-18");
    assert!(info.tools_enabled);
    assert!(info.prompts_enabled);
}

#[test]
fn stop_during_a_serve_cycle_is_observed_at_the_next_poll() {
    let mut ctx: ServerContext<ToolHandler> = ServerContext::new();
    ctx.begin_start(String::from("2025-06-18"));
    // The serve loop polls the flag at a bounded interval; the first poll
    // after a stop request must observe it and exit.
    assert!(!ctx.shutdown_poll());
    shutdown_server(&mut ctx);
    let mut polls: usize = 0;
    while !ctx.shutdown_poll() {
        polls += 1;
        assert!(polls < 2, "the very next poll must observe the stop request");
    }
    assert!(ctx.shutdown_poll());
}
