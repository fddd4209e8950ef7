//! The decisions behind the agent's management surface.
//!
//! The transport (HTTP framing, headers, JSON bodies) lives outside the
//! library; these are the request/response shapes and the pure decisions
//! the handlers make: authorizing a caller, choosing the model to switch
//! to, and assembling the advertised tool list with its per-tool
//! permission.

use vstd::prelude::*;

use crate::permission::{lookup_level, PermissionDecision, PermissionManager};
use crate::registry::RegisteredTool;

verus! {

/// Body of a request to extend the system prompt.
#[derive(Debug, PartialEq, Eq)]
pub struct ExtendPromptRequest {
    pub extension: String,
}

/// Body of the reply to a prompt extension.
#[derive(Clone, Copy, Debug, PartialEq, Eq, Structural)]
pub struct ExtendPromptResponse {
    pub success: bool,
}

/// A reference to one sub-recipe to register with the agent.
#[derive(Debug, PartialEq, Eq)]
pub struct SubRecipe {
    pub name: String,
    pub path: String,
}

/// Body of a request to add sub-recipes.
#[derive(Debug, PartialEq, Eq)]
pub struct AddSubRecipesRequest {
    pub sub_recipes: Vec<SubRecipe>,
}

/// Body of the reply to adding sub-recipes.
#[derive(Clone, Copy, Debug, PartialEq, Eq, Structural)]
pub struct AddSubRecipesResponse {
    pub success: bool,
}

/// Body of a request to switch the model provider.
#[derive(Debug, PartialEq, Eq)]
pub struct UpdateProviderRequest {
    pub provider: String,
    pub model: Option<String>,
}

/// Body of a request to update the session configuration: an optional
/// response schema for a final output tool.
#[derive(Debug, PartialEq, Eq)]
pub struct SessionConfigRequest {
    pub response: Option<String>,
}

/// Query of the tool-listing endpoint.
#[derive(Debug, PartialEq, Eq)]
pub struct GetToolsQuery {
    pub extension_name: Option<String>,
}

/// Body of an error reply.
#[derive(Debug, PartialEq, Eq)]
pub struct ErrorResponse {
    pub error: String,
}

/// Why a caller was refused.
#[derive(Clone, Copy, Debug, PartialEq, Eq, Structural)]
pub enum AuthError {
    /// The secret key was missing or did not match.
    Unauthorized,
}

/// Authorize a caller by its secret key: accepted exactly when a key was
/// supplied and matches the expected one.
pub fn verify_secret_key(provided: Option<&String>, expected: &String) -> (r: Result<
    (),
    AuthError,
>)
    ensures
        r is Ok <==> (provided matches Some(s) && s@ == expected@),
        r is Err ==> r->Err_0 == AuthError::Unauthorized,
{
    match provided {
        Some(s) => {
            if *s == *expected {
                Ok(())
            } else {
                Err(AuthError::Unauthorized)
            }
        },
        None => Err(AuthError::Unauthorized),
    }
}

/// Choose the model for a provider switch: the request's model wins, then
/// the configured model; with neither the request is bad.
pub fn select_model(payload_model: Option<String>, config_model: Option<String>) -> (r: Result<
    String,
    (),
>)
    ensures
        match payload_model {
            Some(m) => r == Ok::<String, ()>(m),
            None => r == match config_model {
                Some(m) => Ok::<String, ()>(m),
                None => Err::<String, ()>(()),
            },
        },
{
    match payload_model {
        Some(m) => Ok(m),
        None => match config_model {
            Some(m) => Ok(m),
            None => Err(()),
        },
    }
}

/// One tool as the management surface reports it: its advertised name,
/// description, parameter names, and the permission that would gate it.
#[derive(Debug, PartialEq, Eq)]
pub struct ToolInfo {
    pub name: String,
    pub description: String,
    pub parameters: Vec<String>,
    pub permission: Option<PermissionDecision>,
}

/// The session-wide approval mode as configured, by name; any other
/// configured value behaves like unattended execution.
#[derive(Clone, Copy, Debug, PartialEq, Eq, Structural)]
pub enum ConfiguredMode {
    Auto,
    Approve,
    SmartApprove,
}

/// The permission reported for one tool: the user's override wins; under
/// `smart_approve` the heuristic default follows; under `approve` every
/// tool asks; otherwise none is reported.
pub open spec fn spec_tool_permission(
    pm: PermissionManager,
    mode: ConfiguredMode,
    tool: Seq<char>,
) -> Option<PermissionDecision> {
    match lookup_level(pm.overrides_view(), tool) {
        Some(level) => Some(level),
        None => match mode {
            ConfiguredMode::SmartApprove => lookup_level(pm.smart_view(), tool),
            ConfiguredMode::Approve => Some(PermissionDecision::AskBefore),
            ConfiguredMode::Auto => None,
        },
    }
}

/// Assemble the reported tool list: one entry per registered tool, in
/// order (so a lexicographically sorted input stays sorted), each with
/// its parameter names and gating permission.
pub fn get_tools_info(
    tools: &Vec<RegisteredTool>,
    pm: &PermissionManager,
    mode: ConfiguredMode,
) -> (r: Vec<ToolInfo>)
    ensures
        r@.len() == tools@.len(),
        forall|i: int|
            #![trigger r@[i]]
            0 <= i < tools@.len() ==> {
                &&& r@[i].name == tools@[i].id
                &&& r@[i].description == tools@[i].tool.description
                &&& r@[i].parameters@.len() == tools@[i].tool.params@.len()
                &&& (forall|j: int|
                    0 <= j < r@[i].parameters@.len() ==> #[trigger] r@[i].parameters@[j]@
                        == tools@[i].tool.params@[j].name@)
                &&& r@[i].permission == spec_tool_permission(*pm, mode, tools@[i].id@)
            },
{
    let n = tools.len();
    let mut out: Vec<ToolInfo> = Vec::new();
    let mut i: usize = 0;
    while i < n
        invariant
            i <= n,
            n == tools@.len(),
            out@.len() == i,
            forall|i2: int|
                #![trigger out@[i2]]
                0 <= i2 < i ==> {
                    &&& out@[i2].name == tools@[i2].id
                    &&& out@[i2].description == tools@[i2].tool.description
                    &&& out@[i2].parameters@.len() == tools@[i2].tool.params@.len()
                    &&& (forall|j: int|
                        0 <= j < out@[i2].parameters@.len() ==> #[trigger] out@[i2].parameters@[
                            j
                        ]@ == tools@[i2].tool.params@[j].name@)
                    &&& out@[i2].permission == spec_tool_permission(*pm, mode, tools@[i2].id@)
                },
        decreases n - i,
    {
        let tool = &tools[i];
        let permission = match pm.get_user_permission(&tool.id) {
            Some(level) => Some(level),
            None => match mode {
                ConfiguredMode::SmartApprove => pm.get_smart_approve_permission(&tool.id),
                ConfiguredMode::Approve => Some(PermissionDecision::AskBefore),
                ConfiguredMode::Auto => None,
            },
        };
        out.push(ToolInfo {
            name: tool.id.clone(),
            description: tool.tool.description.clone(),
            parameters: get_parameter_names(tool),
            permission,
        });
        i = i + 1;
    }
    out
}

/// The names of a tool's declared parameters, in order.
pub fn get_parameter_names(tool: &RegisteredTool) -> (r: Vec<String>)
    ensures
        r@.len() == tool.tool.params@.len(),
        forall|j: int|
            0 <= j < r@.len() ==> #[trigger] r@[j]@ == tool.tool.params@[j].name@,
{
    let n = tool.tool.params.len();
    let mut out: Vec<String> = Vec::new();
    let mut i: usize = 0;
    while i < n
        invariant
            i <= n,
            n == tool.tool.params@.len(),
            out@.len() == i,
            forall|j: int| 0 <= j < i ==> #[trigger] out@[j]@ == tool.tool.params@[j].name@,
        decreases n - i,
    {
        out.push(tool.tool.params[i].name.clone());
        i = i + 1;
    }
    out
}

} // verus!
