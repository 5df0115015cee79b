//! The server lifecycle: one explicit context object owns the two
//! registries and the shutdown flag, in place of process-wide statics. The
//! embedding drives the serve loop itself (it owns the runtime and the
//! transport); the decisions — resetting the flag at start, advertising the
//! server metadata, stopping when the flag is observed — live here.

use vstd::prelude::*;

use crate::dispatch::{PromptEntry, ToolEntry};
use crate::registry::Registry;

verus! {

/// Everything one server instance owns: the tool registry, the prompt
/// registry, and the cooperative shutdown flag.
pub struct ServerContext<H> {
    pub tools: Registry<ToolEntry<H>>,
    pub prompts: Registry<PromptEntry<H>>,
    /// The cooperative shutdown flag; set through `shutdown_server`.
    pub shutdown: bool,
}

/// The metadata the server advertises at initialize time: name, version,
/// instructions, protocol version, and capability flags for tools and
/// prompts (no list-changed notifications).
pub struct InitializeInfo {
    pub name: String,
    pub version: String,
    pub instructions: String,
    pub protocol_version: String,
    pub tools_enabled: bool,
    pub prompts_enabled: bool,
}

impl<H> ServerContext<H> {
    /// Whether a stop has been requested and not yet absorbed by a start.
    pub open spec fn shutdown_requested(self) -> bool {
        self.shutdown
    }

    /// A fresh context: empty registries, no shutdown requested.
    pub fn new() -> (r: ServerContext<H>)
        ensures
            r.tools.wf(),
            !r.tools.is_poisoned(),
            r.tools@ == Map::<Seq<char>, ToolEntry<H>>::empty(),
            r.prompts.wf(),
            !r.prompts.is_poisoned(),
            r.prompts@ == Map::<Seq<char>, PromptEntry<H>>::empty(),
            !r.shutdown_requested(),
    {
        ServerContext { tools: Registry::new(), prompts: Registry::new(), shutdown: false }
    }

    /// The start of a serve cycle: resets the shutdown flag — a stop
    /// requested before this start is absorbed here — and returns the
    /// metadata to advertise, built around the protocol version the
    /// embedding's transport speaks. The registries are untouched.
    pub fn begin_start(&mut self, protocol_version: String) -> (r: InitializeInfo)
        ensures
            !final(self).shutdown_requested(),
            final(self).tools == old(self).tools,
            final(self).prompts == old(self).prompts,
            r.name@ == "Hello World MCP Server"@,
            r.version@ == "0.1.0"@,
            r.instructions@ == "server instructions..."@,
            r.protocol_version@ == protocol_version@,
            r.tools_enabled,
            r.prompts_enabled,
    {
        self.shutdown = false;
        InitializeInfo {
            name: String::from_str("Hello World MCP Server"),
            version: String::from_str("0.1.0"),
            instructions: String::from_str("server instructions..."),
            protocol_version,
            tools_enabled: true,
            prompts_enabled: true,
        }
    }

    /// One step of the shutdown poller: whether the serve loop must stop
    /// now. The embedding calls this at its bounded polling interval, so
    /// the loop exits within one interval of a stop request.
    pub fn shutdown_poll(&self) -> (stop: bool)
        ensures
            stop == self.shutdown_requested(),
    {
        self.shutdown
    }
}

/// The current shutdown flag, read cooperatively.
pub fn shutdown_flag<H>(ctx: &ServerContext<H>) -> (r: bool)
    ensures
        r == ctx.shutdown_requested(),
{
    ctx.shutdown_poll()
}

/// Requests a cooperative shutdown and reports it. Safe to call at any
/// time and from any state: before a start it is a no-op that the next
/// start absorbs; during a serve cycle the poller observes the flag within
/// its polling interval; repeating the call changes nothing further.
pub fn shutdown_server<H>(ctx: &mut ServerContext<H>) -> (r: String)
    ensures
        final(ctx).shutdown_requested(),
        final(ctx).tools == old(ctx).tools,
        final(ctx).prompts == old(ctx).prompts,
        r@ == "Ok"@,
{
    ctx.shutdown = true;
    String::from_str("Ok")
}

} // verus!
