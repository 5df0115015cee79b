//! The request-scoped runtime-access capability. One is created for each
//! inbound tool-call or get-prompt request, handed to the handler, and
//! invalidated unconditionally the moment the handler invocation returns.
//! A handler may retain the object; every accessor on a retained,
//! invalidated capability fails with the distinguished invalidity error.

use vstd::prelude::*;

use crate::error::McpError;
use crate::json::{copy_json, obj_get, obj_lookup_v, Json, JsonV};

verus! {

/// What the live protocol runtime answers about itself at the moment a
/// request is dispatched; the embedding snapshots this from its runtime
/// handle when it builds the capability.
#[derive(Debug, PartialEq, Eq, Clone, Copy)]
pub struct RuntimeInfo {
    /// Whether the protocol session has completed initialization.
    pub initialized: bool,
    /// Whether the connected client advertises sampling support; `None`
    /// where the client said nothing about it.
    pub sampling: Option<bool>,
}

/// The typed shape of a create-message request, as far as this server
/// validates it before handing it to the runtime: the message list and the
/// token bound are required, everything else rides along inside `messages`.
#[derive(Debug, PartialEq, Eq)]
pub struct CreateMessageParams {
    /// The `messages` array, kept as it arrived.
    pub messages: Json,
    /// The required `maxTokens` bound.
    pub max_tokens: i64,
}

/// What validating create-message parameters yields: the `messages` array
/// and the token bound, or the message of the validation error. `messages`
/// is required and must be an array; `maxTokens` is required and must be an
/// integer; the parameters themselves must be an object.
pub open spec fn cm_check(v: JsonV) -> Result<(JsonV, int), Seq<char>> {
    match v {
        JsonV::Obj(fields) => match obj_lookup_v(fields, "messages"@) {
            Option::None => Result::Err("missing field `messages`"@),
            Option::Some(m) => if !(m is Arr) {
                Result::Err("invalid field `messages`"@)
            } else {
                match obj_lookup_v(fields, "maxTokens"@) {
                    Option::None => Result::Err("missing field `maxTokens`"@),
                    Option::Some(JsonV::Int(n)) => Result::Ok((m, n)),
                    Option::Some(_) => Result::Err("invalid field `maxTokens`"@),
                }
            },
        },
        _ => Result::Err("invalid type: parameters are not an object"@),
    }
}

/// The runtime-access capability handed to handlers: a tagged holder that
/// is either valid, wrapping the request's runtime snapshot, or
/// invalidated. Accessors fail on the invalidated arm instead of reaching
/// a runtime whose request has completed.
pub struct RubyMcpServer {
    inner: Option<RuntimeInfo>,
}

impl RubyMcpServer {
    /// Whether the capability still wraps its runtime.
    pub closed spec fn is_valid(self) -> bool {
        self.inner is Some
    }

    /// The runtime snapshot a valid capability wraps.
    pub closed spec fn info(self) -> RuntimeInfo
        recommends
            self.is_valid(),
    {
        self.inner->0
    }

    /// A fresh capability for one request.
    pub fn new(runtime: RuntimeInfo) -> (r: RubyMcpServer)
        ensures
            r.is_valid(),
            r.info() == runtime,
    {
        RubyMcpServer { inner: Some(runtime) }
    }

    /// Clears the wrapped runtime. Idempotent: invalidating an already
    /// invalidated capability changes nothing.
    pub fn invalidate(&mut self)
        ensures
            !final(self).is_valid(),
    {
        self.inner = None;
    }

    /// Whether the protocol session is initialized; fails once the
    /// capability is invalidated.
    pub fn is_initialized(&self) -> (r: Result<bool, McpError>)
        ensures
            self.is_valid() ==> r == Result::<bool, McpError>::Ok(self.info().initialized),
            !self.is_valid() ==> r == Result::<bool, McpError>::Err(McpError::CapabilityInvalid),
    {
        match &self.inner {
            Some(info) => Ok(info.initialized),
            None => Err(McpError::CapabilityInvalid),
        }
    }

    /// Whether the client supports sampling; fails once the capability is
    /// invalidated.
    pub fn client_supports_sampling(&self) -> (r: Result<Option<bool>, McpError>)
        ensures
            self.is_valid() ==> r == Result::<Option<bool>, McpError>::Ok(self.info().sampling),
            !self.is_valid() ==> r == Result::<Option<bool>, McpError>::Err(
                McpError::CapabilityInvalid,
            ),
    {
        match &self.inner {
            Some(info) => Ok(info.sampling),
            None => Err(McpError::CapabilityInvalid),
        }
    }

    /// Validates create-message parameters on behalf of the wrapped
    /// runtime: fails with the invalidity error once the capability is
    /// invalidated, otherwise checks the parameters and returns the typed
    /// shape the runtime call needs. The embedding performs the actual
    /// runtime call with what this returns.
    pub fn create_message(&self, params: &Json) -> (r: Result<CreateMessageParams, McpError>)
        ensures
            !self.is_valid() ==> r == Result::<CreateMessageParams, McpError>::Err(
                McpError::CapabilityInvalid,
            ),
            self.is_valid() ==> match r {
                Result::Ok(p) => cm_check(params@) is Ok && p.messages@ == cm_check(
                    params@,
                )->Ok_0.0 && p.max_tokens as int == cm_check(params@)->Ok_0.1,
                Result::Err(e) => cm_check(params@) is Err && e is Marshal
                    && e->Marshal_0@ == cm_check(params@)->Err_0,
            },
    {
        if self.is_initialized().is_err() {
            return Err(McpError::CapabilityInvalid);
        }
        parse_create_message_params(params)
    }
}

/// Validates create-message parameters: `messages` must be present and an
/// array, `maxTokens` present and an integer; anything else fails with a
/// marshalling error whose message names the missing or ill-shaped field.
pub fn parse_create_message_params(params: &Json) -> (r: Result<CreateMessageParams, McpError>)
    ensures
        match r {
            Result::Ok(p) => cm_check(params@) is Ok && p.messages@ == cm_check(params@)->Ok_0.0
                && p.max_tokens as int == cm_check(params@)->Ok_0.1,
            Result::Err(e) => cm_check(params@) is Err && e is Marshal && e->Marshal_0@ == cm_check(
                params@,
            )->Err_0,
        },
{
    match params {
        Json::Obj(fields) => {
            proof {
                assert(params@->Obj_0 =~= crate::json::obj_fields_v(fields@));
            }
            let messages = match obj_get(fields, "messages") {
                Some(m) => match m {
                    Json::Arr(_) => copy_json(m),
                    _ => {
                        return Err(
                            McpError::Marshal(String::from_str("invalid field `messages`")),
                        );
                    },
                },
                None => {
                    return Err(McpError::Marshal(String::from_str("missing field `messages`")));
                },
            };
            let max_tokens = match obj_get(fields, "maxTokens") {
                Some(t) => match t {
                    Json::Int(n) => *n,
                    _ => {
                        return Err(
                            McpError::Marshal(String::from_str("invalid field `maxTokens`")),
                        );
                    },
                },
                None => {
                    return Err(McpError::Marshal(String::from_str("missing field `maxTokens`")));
                },
            };
            Ok(CreateMessageParams { messages, max_tokens })
        },
        _ => Err(McpError::Marshal(String::from_str("invalid type: parameters are not an object"))),
    }
}

} // verus!
