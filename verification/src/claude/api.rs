//! Request and response shapes of the remote language-model API, and the
//! transport boundary the dispatch loop talks through.

use vstd::prelude::*;
use super::content::Content;
use super::error::Error;
use super::schema::Schema;

verus! {

/// Who produced an interaction.
#[derive(Clone, Copy, Debug, PartialEq, Eq, Structural)]
pub enum Role {
    User,
    Assistant,
}

/// The model variants the agent selects between.
#[derive(Clone, Copy, Debug, PartialEq, Eq, Structural)]
pub enum Model {
    Haiku,
    Sonnet,
    Sonnet35,
    Sonnet37,
    Sonnet4,
    Haiku35,
}

/// Whether this variant is the cheap default the dispatch loop prefers
/// for turns without images.  The identifier each variant is named by on
/// the wire is runtime configuration of the embedding program.
pub open spec fn spec_is_cheap(m: Model) -> bool {
    m is Haiku || m is Haiku35
}

impl Model {
    /// Whether this variant is one of the cheap default variants.
    pub fn is_cheap(&self) -> (r: bool)
        ensures
            r == spec_is_cheap(*self),
    {
        match self {
            Model::Haiku => true,
            Model::Haiku35 => true,
            _ => false,
        }
    }
}

/// One turn of a conversation: a role and its ordered content blocks.
#[derive(Debug, PartialEq)]
pub struct Interaction {
    pub role: Role,
    pub content: Vec<Content>,
}

/// The abstract value of an `Interaction`: the role and the content
/// sequence.
pub struct InteractionView {
    pub role: Role,
    pub content: Seq<Content>,
}

impl View for Interaction {
    type V = InteractionView;

    open spec fn view(&self) -> InteractionView {
        InteractionView { role: self.role, content: self.content@ }
    }
}

/// The abstract history of a sequence of interactions.
pub open spec fn interactions_view(s: Seq<Interaction>) -> Seq<InteractionView> {
    s.map_values(|i: Interaction| i@)
}

/// A tool declaration sent to the remote model: either a provider-side
/// tool or a custom tool described by a schema.
#[derive(Debug, PartialEq)]
pub enum Tool {
    WebSearch {
        kind: String,
        name: String,
        max_uses: usize,
        blocked_domains: Option<Vec<String>>,
    },
    CodeExecution { kind: String, name: String },
    Custom { name: String, description: String, input_schema: Schema },
}

/// The name a tool is invoked by.
pub open spec fn spec_tool_name(t: Tool) -> Seq<char> {
    match t {
        Tool::WebSearch { name, .. } => name@,
        Tool::CodeExecution { name, .. } => name@,
        Tool::Custom { name, .. } => name@,
    }
}

impl Tool {
    /// The name this tool is invoked by.
    pub fn name(&self) -> (r: &str)
        ensures
            r@ == spec_tool_name(*self),
    {
        match self {
            Tool::WebSearch { name, .. } => name.as_str(),
            Tool::CodeExecution { name, .. } => name.as_str(),
            Tool::Custom { name, .. } => name.as_str(),
        }
    }

    /// The provider-side web-search tool.
    pub fn web_search(max_uses: usize, blocked_domains: Option<Vec<String>>) -> (r: Tool)
        ensures
            r matches Tool::WebSearch {
                kind: k,
                name: n,
                max_uses: m,
                blocked_domains: b,
            } && k@ == "web_search_20250305"@ && n@ == "web_search"@ && m == max_uses && b
                == blocked_domains,
    {
        Tool::WebSearch {
            kind: "web_search_20250305".to_owned(),
            name: "web_search".to_owned(),
            max_uses,
            blocked_domains,
        }
    }

    /// The provider-side code-execution tool.
    pub fn code_execution() -> (r: Tool)
        ensures
            r matches Tool::CodeExecution { kind: k, name: n } && k@
                == "code_execution_20250522"@ && n@ == "code_execution"@,
    {
        Tool::CodeExecution {
            kind: "code_execution_20250522".to_owned(),
            name: "code_execution".to_owned(),
        }
    }
}

/// Token accounting attached to a model reply.
#[derive(Clone, Copy, Debug, PartialEq, Eq, Structural)]
pub struct Usage {
    pub input_tokens: usize,
    pub output_tokens: usize,
}

/// One model variant as the listing endpoint describes it.
#[derive(Debug, PartialEq)]
pub struct ModelDetails {
    pub id: String,
    pub display_name: String,
    pub kind: String,
    pub created_at: String,
}

/// The reply of the model-listing endpoint.
#[derive(Debug, PartialEq)]
pub struct ListModelsResponse {
    pub data: Vec<ModelDetails>,
    pub first_id: String,
    pub has_more: bool,
    pub last_id: String,
}

/// A typed rejection from the remote API.
#[derive(Debug, PartialEq)]
pub enum APIError {
    InvalidRequestError { message: String },
    AuthenticationError { message: String },
    PermissionError { message: String },
    NotFoundError { message: String },
    RateLimitError { message: String },
    ApiError { message: String },
    OverloadedError { message: String },
}

/// The message a typed rejection carries.
pub open spec fn spec_api_error_message(e: APIError) -> Seq<char> {
    match e {
        APIError::InvalidRequestError { message } => message@,
        APIError::AuthenticationError { message } => message@,
        APIError::PermissionError { message } => message@,
        APIError::NotFoundError { message } => message@,
        APIError::RateLimitError { message } => message@,
        APIError::ApiError { message } => message@,
        APIError::OverloadedError { message } => message@,
    }
}

impl APIError {
    /// The human-readable message of this rejection.
    pub fn message(&self) -> (r: &str)
        ensures
            r@ == spec_api_error_message(*self),
    {
        match self {
            APIError::InvalidRequestError { message } => message.as_str(),
            APIError::AuthenticationError { message } => message.as_str(),
            APIError::PermissionError { message } => message.as_str(),
            APIError::NotFoundError { message } => message.as_str(),
            APIError::RateLimitError { message } => message.as_str(),
            APIError::ApiError { message } => message.as_str(),
            APIError::OverloadedError { message } => message.as_str(),
        }
    }
}

/// A reply from the remote model: a message, or a typed rejection.
#[derive(Debug, PartialEq)]
pub enum Response {
    Message {
        id: String,
        model: String,
        role: String,
        stop_reason: Option<String>,
        stop_sequence: Option<String>,
        usage: Usage,
        content: Vec<Content>,
    },
    Error { error: APIError },
}

/// The remote model client: the key it authenticates with and the model
/// it asks for by default.
#[derive(Debug, PartialEq)]
pub struct Client {
    pub api_key: String,
    pub model: Model,
}

impl Client {
    /// A client for the given key and default model.
    pub fn new(api_key: String, model: Model) -> (r: Client)
        ensures
            r.api_key@ == api_key@,
            r.model == model,
    {
        Client { api_key, model }
    }
}

/// The transport that carries one request to the remote model and returns
/// its reply.  The dispatch loop is verified against this boundary for
/// every possible reply; implementations live outside the verified code.
pub trait Transport {
    /// Send one turn: the chosen model, the system prompt, the full
    /// history, and the declared tools.
    fn create_message(
        &mut self,
        model_override: Option<Model>,
        messages: &Vec<Interaction>,
        tools: &Vec<Tool>,
        prompt: &str,
    ) -> Result<Response, Error>;
}

} // verus!
