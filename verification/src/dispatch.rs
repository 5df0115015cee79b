//! The protocol dispatcher: registration of tools and prompts, and the
//! decision core of the four inbound request kinds. Each request runs
//! lookup, argument marshalling, one handler invocation (performed by the
//! embedding under the host lock), and result assembly; the parts around
//! the handler invocation live here.
//!
//! Failure policy: a tool handler's failure becomes an error-flagged tool
//! result, not a protocol-level error, so clients can render it inline; a
//! prompt handler's failure becomes a protocol-level error, since prompt
//! results have no error envelope.

use vstd::prelude::*;

use crate::error::McpError;
use crate::json::{copy_json, obj_get, obj_lookup_v, Json, JsonV};
use crate::registry::Registry;
use crate::schema::{
    copy_opt_string, copy_prompt_descriptor, copy_tool_descriptor, parse_prompt_arguments,
    parse_tool_input_schema, prompt_arguments_of, properties_of, required_of, PromptArgument,
    PromptDescriptor, PromptDescriptorV, ToolDescriptor, ToolDescriptorV, ToolInputSchema,
    ToolInputSchemaV,
};

verus! {

/// One tool registration: the descriptor listed to clients and the handler
/// the dispatcher invokes. `H` is the embedding's handler representation,
/// opaque to the dispatcher.
#[derive(Debug)]
pub struct ToolEntry<H> {
    pub tool: ToolDescriptor,
    pub handler: H,
}

/// One prompt registration.
#[derive(Debug)]
pub struct PromptEntry<H> {
    pub prompt: PromptDescriptor,
    pub handler: H,
}

/// The input schema a registration with `arg_schema` input yields.
pub open spec fn schema_of_input(arg_schema: Option<Json>) -> ToolInputSchemaV {
    match arg_schema {
        Some(j) => ToolInputSchemaV { required: required_of(j@), properties: properties_of(j@) },
        None => ToolInputSchemaV {
            required: Seq::empty(),
            properties: Seq::empty(),
        },
    }
}

/// Registers a tool: builds the descriptor (schema parsed leniently from
/// `arg_schema`, or empty where omitted) and inserts it, overwriting any
/// earlier registration under the same name. On a poisoned registry it
/// inserts nothing and fails with the "tools mutex poisoned" error.
pub fn register_tool<H>(
    tools: &mut Registry<ToolEntry<H>>,
    name: String,
    description: Option<String>,
    arg_schema: Option<Json>,
    handler: H,
) -> (r: Result<(), McpError>)
    requires
        old(tools).wf(),
    ensures
        final(tools).wf(),
        final(tools).is_poisoned() == old(tools).is_poisoned(),
        old(tools).is_poisoned() ==> r is Err && r->Err_0 is LockPoisoned
            && r->Err_0->LockPoisoned_0@ == "tools"@ && *final(tools) == *old(tools),
        !old(tools).is_poisoned() ==> r is Ok && final(tools)@.contains_key(name@)
            && final(tools)@ == old(tools)@.insert(name@, final(tools)@[name@])
            && final(tools)@[name@].tool@
            == (ToolDescriptorV {
            name: name@,
            description: description.deep_view(),
            input_schema: schema_of_input(arg_schema),
        }) && final(tools)@[name@].handler == handler,
{
    if tools.is_poisoned_check() {
        return Err(McpError::LockPoisoned(String::from_str("tools")));
    }
    let schema = match &arg_schema {
        Some(j) => parse_tool_input_schema(j),
        None => {
            let s = ToolInputSchema { required: Vec::new(), properties: Vec::new() };
            proof {
                assert(s@ =~= schema_of_input(arg_schema));
            }
            s
        },
    };
    let tool = ToolDescriptor { name: name.clone(), description, input_schema: schema };
    proof {
        assert(tool@.input_schema =~= schema_of_input(arg_schema));
    }
    tools.register(name, ToolEntry { tool, handler })
}

/// Registers a prompt: parses the argument descriptors leniently from
/// `arguments` (or none where omitted) and inserts the prompt, overwriting
/// any earlier registration under the same name. On a poisoned registry it
/// inserts nothing and fails with the "prompts mutex poisoned" error.
pub fn register_prompt<H>(
    prompts: &mut Registry<PromptEntry<H>>,
    name: String,
    description: Option<String>,
    arguments: Option<Json>,
    handler: H,
) -> (r: Result<(), McpError>)
    requires
        old(prompts).wf(),
    ensures
        final(prompts).wf(),
        final(prompts).is_poisoned() == old(prompts).is_poisoned(),
        old(prompts).is_poisoned() ==> r is Err && r->Err_0 is LockPoisoned
            && r->Err_0->LockPoisoned_0@ == "prompts"@ && *final(prompts) == *old(prompts),
        !old(prompts).is_poisoned() ==> r is Ok && final(prompts)@.contains_key(name@)
            && final(prompts)@ == old(prompts)@.insert(name@, final(prompts)@[name@])
            && final(prompts)@[name@].prompt@
            == (PromptDescriptorV {
            name: name@,
            description: description.deep_view(),
            arguments: match arguments {
                Some(j) => prompt_arguments_of(j@),
                None => Seq::empty(),
            },
        }) && final(prompts)@[name@].handler == handler,
{
    if prompts.is_poisoned_check() {
        return Err(McpError::LockPoisoned(String::from_str("prompts")));
    }
    let parsed_args = match &arguments {
        Some(j) => parse_prompt_arguments(j),
        None => {
            let v: Vec<PromptArgument> = Vec::new();
            proof {
                assert(v.deep_view() =~= Seq::<crate::schema::PromptArgumentV>::empty());
            }
            v
        },
    };
    let prompt = PromptDescriptor { name: name.clone(), description, arguments: parsed_args };
    prompts.register(name, PromptEntry { prompt, handler })
}

/// The law behind register-then-list, over arbitrary prior contents: in a
/// well-formed tool registry whose entries carry their own key as the
/// descriptor name — as every entry built by `register_tool` does — a
/// registered name stands at exactly one listing position, and what
/// stands there is the entry the registry's map carries under that name.
/// With the listing contract of `handle_list_tools_request`, a client
/// therefore sees exactly one descriptor under each registered name.
pub proof fn lemma_tool_listed_exactly_once<H>(tools: Registry<ToolEntry<H>>, name: Seq<char>)
    requires
        tools.wf(),
        forall|k: Seq<char>| tools@.contains_key(k) ==> (#[trigger] tools@[k]).tool@.name == k,
        tools@.contains_key(name),
    ensures
        exists|i: int|
            0 <= i < tools.seq_view().len() && (#[trigger] tools.seq_view()[i]).1.tool@.name
                == name && tools.seq_view()[i].1 == tools@[name],
        forall|i: int|
            0 <= i < tools.seq_view().len() && (#[trigger] tools.seq_view()[i]).1.tool@.name
                == name ==> tools.seq_view()[i] == (name, tools@[name]),
{
    tools.lemma_wf_unique();
    tools.lemma_listed_once(name);
    assert forall|i: int|
        0 <= i < tools.seq_view().len() && (#[trigger] tools.seq_view()[i]).1.tool@.name
            == name implies tools.seq_view()[i] == (name, tools@[name]) by {
        crate::registry::lemma_assoc_map_index(tools.seq_view(), i);
    }
    let w = choose|i: int|
        0 <= i < tools.seq_view().len() && #[trigger] tools.seq_view()[i] == (name, tools@[name]);
    assert(tools.seq_view()[w].1.tool@.name == name);
}

/// A list-tools response: the descriptor snapshot; no pagination cursor is
/// ever produced.
#[derive(Debug)]
pub struct ListToolsResult {
    pub tools: Vec<ToolDescriptor>,
    pub next_cursor: Option<String>,
}

/// A list-prompts response.
#[derive(Debug)]
pub struct ListPromptsResult {
    pub prompts: Vec<PromptDescriptor>,
    pub next_cursor: Option<String>,
}

/// A call-tool response: text content blocks, flagged as an error result
/// where the handler failed.
#[derive(Debug)]
pub struct CallToolResult {
    pub content: Vec<String>,
    pub is_error: bool,
}

/// One message of a prompt result.
#[derive(Debug, PartialEq, Eq)]
pub struct PromptMessage {
    pub role: String,
    pub content: Json,
}

/// The mathematical shape of a prompt message.
#[verifier::ext_equal]
pub struct PromptMessageV {
    pub role: Seq<char>,
    pub content: JsonV,
}

impl View for PromptMessage {
    type V = PromptMessageV;

    open spec fn view(&self) -> PromptMessageV {
        PromptMessageV { role: self.role@, content: self.content@ }
    }
}

impl DeepView for PromptMessage {
    type V = PromptMessageV;

    open spec fn deep_view(&self) -> PromptMessageV {
        self.view()
    }
}

/// A get-prompt response.
#[derive(Debug)]
pub struct GetPromptResult {
    pub description: Option<String>,
    pub messages: Vec<PromptMessage>,
}

/// What one value contributes as a prompt message: an object with a string
/// `role` and a `content` field, or the message of the validation error.
pub open spec fn pm_check(v: JsonV) -> Result<PromptMessageV, Seq<char>> {
    match v {
        JsonV::Obj(fields) => match obj_lookup_v(fields, "role"@) {
            Option::None => Result::Err("missing field `role`"@),
            Option::Some(JsonV::Str(role)) => match obj_lookup_v(fields, "content"@) {
                Option::None => Result::Err("missing field `content`"@),
                Option::Some(c) => Result::Ok(PromptMessageV { role, content: c }),
            },
            Option::Some(_) => Result::Err("invalid field `role`"@),
        },
        _ => Result::Err("invalid type: prompt message is not an object"@),
    }
}

/// What a list of values contributes as prompt messages: each item in
/// order, stopping at the first invalid one.
pub open spec fn pm_items(items: Seq<JsonV>) -> Result<Seq<PromptMessageV>, Seq<char>>
    decreases items.len(),
{
    if items.len() == 0 {
        Result::Ok(Seq::empty())
    } else {
        match pm_check(items[0]) {
            Result::Err(e) => Result::Err(e),
            Result::Ok(m) => match pm_items(items.drop_first()) {
                Result::Err(e) => Result::Err(e),
                Result::Ok(rest) => Result::Ok(seq![m] + rest),
            },
        }
    }
}

/// What a handler's returned value contributes as a prompt message list:
/// it must be an array of valid messages.
pub open spec fn pm_list_check(v: JsonV) -> Result<Seq<PromptMessageV>, Seq<char>> {
    match v {
        JsonV::Arr(items) => pm_items(items),
        _ => Result::Err("invalid type: prompt messages are not an array"@),
    }
}

/// The valid prefix of a message list factors out of the check.
proof fn lemma_pm_items_prefix(items: Seq<JsonV>, i: int)
    requires
        0 <= i <= items.len(),
        forall|k: int| 0 <= k < i ==> pm_check(#[trigger] items[k]) is Ok,
    ensures
        pm_items(items) == match pm_items(items.skip(i)) {
            Result::Err(e) => Result::<Seq<PromptMessageV>, Seq<char>>::Err(e),
            Result::Ok(rest) => Result::Ok(
                Seq::new(i as nat, |k: int| pm_check(items[k])->Ok_0) + rest,
            ),
        },
    decreases i,
{
    if i == 0 {
        assert(items.skip(0) =~= items);
        match pm_items(items) {
            Result::Err(e) => {},
            Result::Ok(rest) => {
                assert(Seq::new(0, |k: int| pm_check(items[k])->Ok_0) + rest =~= rest);
            },
        }
    } else {
        lemma_pm_items_prefix(items, i - 1);
        let s1 = items.skip(i - 1);
        assert(s1[0] == items[i - 1]);
        assert(s1.drop_first() =~= items.skip(i));
        let p_prev = Seq::new((i - 1) as nat, |k: int| pm_check(items[k])->Ok_0);
        let p_now = Seq::new(i as nat, |k: int| pm_check(items[k])->Ok_0);
        match pm_items(items.skip(i)) {
            Result::Err(e) => {},
            Result::Ok(rest) => {
                assert(p_prev + (seq![pm_check(items[i - 1])->Ok_0] + rest) =~= p_now + rest);
            },
        }
    }
}

/// Reads a handler's returned value as a list of prompt messages: an array
/// of objects, each with a string `role` and a `content` field. Anything
/// else fails with a marshalling error naming what was missing or
/// ill-shaped.
#[verifier::loop_isolation(false)]
pub fn parse_prompt_messages(j: &Json) -> (r: Result<Vec<PromptMessage>, McpError>)
    ensures
        match r {
            Result::Ok(ms) => pm_list_check(j@) is Ok && ms.deep_view() == pm_list_check(j@)->Ok_0,
            Result::Err(e) => pm_list_check(j@) is Err && e is Marshal && e->Marshal_0@
                == pm_list_check(j@)->Err_0,
        },
{
    match j {
        Json::Arr(items) => {
            proof {
                assert(j@->Arr_0 =~= crate::json::arr_items_v(items@));
            }
            let ghost t = crate::json::arr_items_v(items@);
            let mut out: Vec<PromptMessage> = Vec::new();
            let mut i: usize = 0;
            while i < items.len()
                invariant
                    i <= items@.len(),
                    out@.len() == i,
                    forall|k: int| 0 <= k < i ==> pm_check(#[trigger] t[k]) is Ok,
                    forall|k: int| 0 <= k < i ==> #[trigger] out@[k]@ == pm_check(t[k])->Ok_0,
                decreases items@.len() - i,
            {
                let msg = match &items[i] {
                    Json::Obj(fields) => {
                        proof {
                            assert(t[i as int]->Obj_0 =~= crate::json::obj_fields_v(fields@));
                        }
                        let role = match obj_get(fields, "role") {
                            Some(rv) => match rv {
                                Json::Str(role) => role.clone(),
                                _ => {
                                    proof {
                                        lemma_pm_items_prefix(t, i as int);
                                        assert(t.skip(i as int)[0] == t[i as int]);
                                    }
                                    return Err(
                                        McpError::Marshal(String::from_str("invalid field `role`")),
                                    );
                                },
                            },
                            None => {
                                proof {
                                    lemma_pm_items_prefix(t, i as int);
                                    assert(t.skip(i as int)[0] == t[i as int]);
                                }
                                return Err(
                                    McpError::Marshal(String::from_str("missing field `role`")),
                                );
                            },
                        };
                        let content = match obj_get(fields, "content") {
                            Some(c) => copy_json(c),
                            None => {
                                proof {
                                    lemma_pm_items_prefix(t, i as int);
                                    assert(t.skip(i as int)[0] == t[i as int]);
                                }
                                return Err(
                                    McpError::Marshal(String::from_str("missing field `content`")),
                                );
                            },
                        };
                        PromptMessage { role, content }
                    },
                    _ => {
                        proof {
                            lemma_pm_items_prefix(t, i as int);
                            assert(t.skip(i as int)[0] == t[i as int]);
                        }
                        return Err(
                            McpError::Marshal(
                                String::from_str("invalid type: prompt message is not an object"),
                            ),
                        );
                    },
                };
                proof {
                    assert(pm_check(t[i as int]) is Ok);
                    assert(msg@ == pm_check(t[i as int])->Ok_0);
                }
                out.push(msg);
                i = i + 1;
            }
            proof {
                lemma_pm_items_prefix(t, t.len() as int);
                assert(t.skip(t.len() as int) =~= Seq::<JsonV>::empty());
                assert(out.deep_view() =~= Seq::new(t.len(), |k: int| pm_check(t[k])->Ok_0)
                    + Seq::<PromptMessageV>::empty());
            }
            Ok(out)
        },
        _ => Err(
            McpError::Marshal(String::from_str("invalid type: prompt messages are not an array")),
        ),
    }
}

/// The string-keyed, string-valued argument map of a get-prompt request,
/// as the JSON object the handler receives.
#[verifier::loop_isolation(false)]
pub fn prompt_args_to_json(args: &Vec<(String, String)>) -> (r: Json)
    ensures
        r@ is Obj,
        r@->Obj_0.len() == args@.len(),
        forall|i: int|
            0 <= i < args@.len() ==> #[trigger] r@->Obj_0[i] == (
            args@[i].0@,
            JsonV::Str(args@[i].1@),
            ),
{
    let mut fields: Vec<(String, Json)> = Vec::new();
    let mut i: usize = 0;
    while i < args.len()
        invariant
            i <= args@.len(),
            fields@.len() == i,
            forall|k: int|
                0 <= k < i ==> (#[trigger] fields@[k]).0@ == args@[k].0@ && fields@[k].1.v()
                    == JsonV::Str(args@[k].1@),
        decreases args@.len() - i,
    {
        let (k, v) = &args[i];
        fields.push((k.clone(), Json::Str(v.clone())));
        i = i + 1;
    }
    let r = Json::Obj(fields);
    proof {
        assert forall|k: int| 0 <= k < args@.len() implies #[trigger] r@->Obj_0[k] == (
        args@[k].0@,
        JsonV::Str(args@[k].1@),
        ) by {
            assert(r@->Obj_0[k] == (fields@[k].0@, fields@[k].1.v()));
        }
    }
    r
}

/// The dispatcher the embedding drives: the compute part of each of the
/// four request kinds, around the handler invocation it performs itself.
pub struct MyServerHandler;

impl MyServerHandler {
    /// list-tools: a snapshot of the registered tool descriptors, in
    /// registry order, with no pagination cursor.
    pub fn handle_list_tools_request<H>(&self, tools: &Registry<ToolEntry<H>>) -> (r: Result<
        ListToolsResult,
        McpError,
    >)
        requires
            tools.wf(),
        ensures
            tools.is_poisoned() ==> r is Err && r->Err_0 is LockPoisoned
                && r->Err_0->LockPoisoned_0@ == "tools"@,
            !tools.is_poisoned() ==> match r {
                Result::Ok(res) => {
                    &&& res.next_cursor is None
                    &&& res.tools@.len() == tools.seq_view().len()
                    &&& forall|i: int|
                        0 <= i < res.tools@.len() ==> #[trigger] res.tools@[i]@
                            == tools.seq_view()[i].1.tool@
                },
                Result::Err(_) => false,
            },
    {
        if tools.is_poisoned_check() {
            return Err(McpError::LockPoisoned(String::from_str("tools")));
        }
        let n = tools.len();
        let mut out: Vec<ToolDescriptor> = Vec::new();
        let mut i: usize = 0;
        while i < n
            invariant
                i <= n,
                n == tools.seq_view().len(),
                tools.wf(),
                out@.len() == i,
                forall|k: int|
                    0 <= k < i ==> #[trigger] out@[k]@ == tools.seq_view()[k].1.tool@,
            decreases n - i,
        {
            let entry = tools.entry_at(i);
            out.push(copy_tool_descriptor(&entry.1.tool));
            i = i + 1;
        }
        Ok(ListToolsResult { tools: out, next_cursor: None })
    }

    /// list-prompts: a snapshot of the registered prompt descriptors, in
    /// registry order, with no pagination cursor.
    pub fn handle_list_prompts_request<H>(&self, prompts: &Registry<PromptEntry<H>>) -> (r: Result<
        ListPromptsResult,
        McpError,
    >)
        requires
            prompts.wf(),
        ensures
            prompts.is_poisoned() ==> r is Err && r->Err_0 is LockPoisoned
                && r->Err_0->LockPoisoned_0@ == "prompts"@,
            !prompts.is_poisoned() ==> match r {
                Result::Ok(res) => {
                    &&& res.next_cursor is None
                    &&& res.prompts@.len() == prompts.seq_view().len()
                    &&& forall|i: int|
                        0 <= i < res.prompts@.len() ==> #[trigger] res.prompts@[i]@
                            == prompts.seq_view()[i].1.prompt@
                },
                Result::Err(_) => false,
            },
    {
        if prompts.is_poisoned_check() {
            return Err(McpError::LockPoisoned(String::from_str("prompts")));
        }
        let n = prompts.len();
        let mut out: Vec<PromptDescriptor> = Vec::new();
        let mut i: usize = 0;
        while i < n
            invariant
                i <= n,
                n == prompts.seq_view().len(),
                prompts.wf(),
                out@.len() == i,
                forall|k: int|
                    0 <= k < i ==> #[trigger] out@[k]@ == prompts.seq_view()[k].1.prompt@,
            decreases n - i,
        {
            let entry = prompts.entry_at(i);
            out.push(copy_prompt_descriptor(&entry.1.prompt));
            i = i + 1;
        }
        Ok(ListPromptsResult { prompts: out, next_cursor: None })
    }

    /// call-tool, lookup step: the entry under the requested name, or the
    /// "unknown tool" error naming exactly that tool.
    pub fn call_tool_lookup<'a, H>(
        &self,
        tools: &'a Registry<ToolEntry<H>>,
        name: &String,
    ) -> (r: Result<&'a ToolEntry<H>, McpError>)
        requires
            tools.wf(),
        ensures
            match r {
                Result::Ok(e) => !tools.is_poisoned() && tools@.contains_key(name@) && *e
                    == tools@[name@],
                Result::Err(e) => if tools.is_poisoned() {
                    e is LockPoisoned && e->LockPoisoned_0@ == "tools"@
                } else {
                    !tools@.contains_key(name@) && e == McpError::UnknownTool(*name)
                },
            },
    {
        if tools.is_poisoned_check() {
            return Err(McpError::LockPoisoned(String::from_str("tools")));
        }
        match tools.get(name) {
            Ok(Some(e)) => Ok(e),
            Ok(None) => Err(McpError::UnknownTool(name.clone())),
            Err(e) => Err(e),
        }
    }

    /// call-tool, result step: a successful handler's text becomes a
    /// single text-content result; a failed handler's message becomes an
    /// error-flagged result rather than a protocol-level error.
    pub fn call_tool_finish(&self, outcome: Result<String, String>) -> (r: CallToolResult)
        ensures
            r.content@.len() == 1,
            match outcome {
                Result::Ok(text) => !r.is_error && r.content@[0]@ == text@,
                Result::Err(msg) => r.is_error && r.content@[0]@ == msg@,
            },
    {
        match outcome {
            Ok(text) => {
                let mut content: Vec<String> = Vec::new();
                content.push(text);
                CallToolResult { content, is_error: false }
            },
            Err(msg) => {
                let mut content: Vec<String> = Vec::new();
                content.push(msg);
                CallToolResult { content, is_error: true }
            },
        }
    }

    /// get-prompt, lookup step: the entry under the requested name, or the
    /// invalid-params "Unknown prompt" error.
    pub fn get_prompt_lookup<'a, H>(
        &self,
        prompts: &'a Registry<PromptEntry<H>>,
        name: &String,
    ) -> (r: Result<&'a PromptEntry<H>, McpError>)
        requires
            prompts.wf(),
        ensures
            match r {
                Result::Ok(e) => !prompts.is_poisoned() && prompts@.contains_key(name@) && *e
                    == prompts@[name@],
                Result::Err(e) => if prompts.is_poisoned() {
                    e is LockPoisoned && e->LockPoisoned_0@ == "prompts"@
                } else {
                    !prompts@.contains_key(name@) && e == McpError::UnknownPrompt
                },
            },
    {
        if prompts.is_poisoned_check() {
            return Err(McpError::LockPoisoned(String::from_str("prompts")));
        }
        match prompts.get(name) {
            Ok(Some(e)) => Ok(e),
            Ok(None) => Err(McpError::UnknownPrompt),
            Err(e) => Err(e),
        }
    }

    /// get-prompt, result step: a successful handler's value is read as a
    /// message list and paired with the descriptor's description; a failed
    /// handler surfaces as a protocol-level handler error.
    pub fn get_prompt_finish(
        &self,
        description: &Option<String>,
        outcome: Result<&Json, String>,
    ) -> (r: Result<GetPromptResult, McpError>)
        ensures
            match outcome {
                Result::Err(msg) => r == Result::<GetPromptResult, McpError>::Err(
                    McpError::Handler(msg),
                ),
                Result::Ok(j) => match r {
                    Result::Ok(res) => pm_list_check(j@) is Ok && res.messages.deep_view()
                        == pm_list_check(j@)->Ok_0 && res.description.deep_view()
                        == description.deep_view(),
                    Result::Err(e) => pm_list_check(j@) is Err && e is Marshal && e->Marshal_0@
                        == pm_list_check(j@)->Err_0,
                },
            },
    {
        match outcome {
            Ok(j) => {
                let messages = parse_prompt_messages(j)?;
                Ok(GetPromptResult { description: copy_opt_string(description), messages })
            },
            Err(msg) => Err(McpError::Handler(msg)),
        }
    }
}

} // verus!
