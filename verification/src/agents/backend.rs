//! Language model backends: the interface that the workers rely on, the
//! settings of the two kinds of service, and what is posted to the
//! Anthropic Messages service and read from its answer.

use vstd::prelude::*;
use crate::agents::traits::{is_success, success, Header, LlmError};
use crate::canonical::{
    array, array_of, json_string, member, member_of, number_of, object, object_of, quote,
};
use crate::json::{json_text, text_at};
use crate::text::{chars_of, decimal, push_decimal, push_str, text_of, texts};

verus! {

/// Token limit of a backend that is given none.
pub const DEFAULT_MAX_TOKENS: u32 = 4096;

/// A service that completes a prompt.
///
/// What the service answers is its own to say: unless a service says
/// otherwise, it may answer anything.
pub trait LlmBackend {
    /// Whether `r` may be the service's answer to the user's text under
    /// the system prompt.
    open spec fn answers(
        &self,
        system: Seq<char>,
        user: Seq<char>,
        r: Result<String, LlmError>,
    ) -> bool {
        true
    }

    /// The completion for the user's text under the system prompt.
    fn generate(&self, system: &str, user: &str) -> (r: Result<String, LlmError>)
        ensures
            self.answers(system@, user@, r),
    ;

    /// The model's name.
    fn model_name(&self) -> &str;
}

/// Settings of a service that speaks the OpenAI chat protocol.
#[derive(Debug, Clone)]
pub struct OpenAIBackendConfig {
    /// API key
    pub api_key: String,
    /// Base address, for OpenRouter or a local server
    pub base_url: Option<String>,
    /// Model name
    pub model: String,
    /// Temperature in millionths
    pub temperature: u64,
    /// Token limit
    pub max_tokens: u16,
}

impl Default for OpenAIBackendConfig {
    fn default() -> (c: OpenAIBackendConfig)
        ensures
            c.api_key@.len() == 0,
            c.base_url is None,
            c.model@ == "gpt-4o-mini"@,
            c.temperature == 0,
            c.max_tokens == 4096,
    {
        OpenAIBackendConfig {
            api_key: String::new(),
            base_url: None,
            model: "gpt-4o-mini".to_owned(),
            temperature: 0,
            max_tokens: 4096,
        }
    }
}

impl OpenAIBackendConfig {
    /// Settings for OpenAI itself.
    pub fn openai(api_key: &str, model: &str) -> (c: OpenAIBackendConfig)
        ensures
            c.api_key@ == api_key@,
            c.base_url is None,
            c.model@ == model@,
            c.temperature == 0,
            c.max_tokens == 4096,
    {
        OpenAIBackendConfig {
            api_key: api_key.to_owned(),
            base_url: None,
            model: model.to_owned(),
            temperature: 0,
            max_tokens: 4096,
        }
    }

    /// Settings for OpenRouter.
    pub fn openrouter(api_key: &str, model: &str) -> (c: OpenAIBackendConfig)
        ensures
            c.api_key@ == api_key@,
            c.base_url matches Some(u) && u@ == "https://openrouter.ai/api/v1"@,
            c.model@ == model@,
            c.temperature == 0,
            c.max_tokens == 4096,
    {
        OpenAIBackendConfig {
            api_key: api_key.to_owned(),
            base_url: Some("https://openrouter.ai/api/v1".to_owned()),
            model: model.to_owned(),
            temperature: 0,
            max_tokens: 4096,
        }
    }

    /// Settings for a local server.
    pub fn local(base_url: &str, model: &str) -> (c: OpenAIBackendConfig)
        ensures
            c.api_key@ == "sk-local"@,
            c.base_url matches Some(u) && u@ == base_url@,
            c.model@ == model@,
            c.temperature == 0,
            c.max_tokens == 4096,
    {
        OpenAIBackendConfig {
            api_key: "sk-local".to_owned(),
            base_url: Some(base_url.to_owned()),
            model: model.to_owned(),
            temperature: 0,
            max_tokens: 4096,
        }
    }
}

/// Settings of the Anthropic Messages service.
#[derive(Debug, Clone)]
pub struct AnthropicConfig {
    /// API key
    pub api_key: String,
    /// Model name
    pub model: String,
    /// Token limit
    pub max_tokens: u32,
}

impl AnthropicConfig {
    /// Settings with the default token limit.
    pub fn new(api_key: &str, model: &str) -> (c: AnthropicConfig)
        ensures
            c.api_key@ == api_key@,
            c.model@ == model@,
            c.max_tokens == DEFAULT_MAX_TOKENS,
    {
        AnthropicConfig {
            api_key: api_key.to_owned(),
            model: model.to_owned(),
            max_tokens: DEFAULT_MAX_TOKENS,
        }
    }
}

/// Address of the Anthropic Messages service.
pub const ANTHROPIC_URL: &'static str = "https://api.anthropic.com/v1/messages";

/// Version of the Anthropic Messages protocol.
pub const ANTHROPIC_VERSION: &'static str = "2023-06-01";

/// A request to be posted.
#[derive(Debug, Clone)]
pub struct Post {
    pub url: String,
    pub headers: Vec<Header>,
    pub body: String,
}

/// Name and value of each header.
pub open spec fn pairs(v: Seq<Header>) -> Seq<(Seq<char>, Seq<char>)> {
    v.map_values(|h: Header| (h.name@, h.value@))
}

/// A message of a conversation.
pub open spec fn message(role: Seq<char>, content: Seq<char>) -> Seq<char> {
    object(seq![member("role"@, json_string(role)), member("content"@, json_string(content))])
}

fn message_of(role: &str, content: &str) -> (r: Vec<char>)
    ensures
        r@ == message(role@, content@),
{
    let mut m: Vec<Vec<char>> = Vec::new();
    m.push(member_of("role", quote(role)));
    m.push(member_of("content", quote(content)));
    assert(texts(m@) =~= seq![
        member("role"@, json_string(role@)),
        member("content"@, json_string(content@)),
    ]);
    object_of(&m)
}

fn header(name: &str, value: &str) -> (h: Header)
    ensures
        h.name@ == name@,
        h.value@ == value@,
{
    Header { name: name.to_owned(), value: value.to_owned() }
}

/// The body of a request to the Anthropic Messages service.
pub open spec fn anthropic_body(c: AnthropicConfig, system: Seq<char>, user: Seq<char>) -> Seq<
    char,
> {
    object(
        seq![
            member("model"@, json_string(c.model@)),
            member("max_tokens"@, decimal(c.max_tokens as nat)),
            member("system"@, json_string(system)),
            member("messages"@, array(seq![message("user"@, user)])),
        ],
    )
}

/// The headers of a request to the Anthropic Messages service.
pub open spec fn anthropic_headers(c: AnthropicConfig) -> Seq<(Seq<char>, Seq<char>)> {
    seq![
        ("x-api-key"@, c.api_key@),
        ("anthropic-version"@, ANTHROPIC_VERSION@),
        ("content-type"@, "application/json"@),
    ]
}

/// What the Anthropic Messages service answered: the text of the first
/// block of content of a successful answer.
pub open spec fn anthropic_reply(status: u16, body: Seq<char>) -> Option<Seq<char>> {
    if is_success(status) {
        json_text(body, "/content/0/text"@)
    } else {
        None
    }
}

/// The Anthropic Messages service, as far as it is a matter of texts: what
/// is posted and how the answer is read.
#[derive(Debug, Clone)]
pub struct AnthropicBackend {
    pub config: AnthropicConfig,
}

impl AnthropicBackend {
    /// A backend with the given settings.
    pub fn new(config: AnthropicConfig) -> (r: Result<AnthropicBackend, LlmError>)
        ensures
            r matches Ok(b) && b.config == config,
    {
        Ok(AnthropicBackend { config })
    }

    /// The model's name.
    pub fn model_name(&self) -> (r: &str)
        ensures
            r@ == self.config.model@,
    {
        self.config.model.as_str()
    }

    /// The request that asks for the completion of `user` under `system`.
    pub fn request(&self, system: &str, user: &str) -> (p: Post)
        ensures
            p.url@ == ANTHROPIC_URL@,
            pairs(p.headers@) == anthropic_headers(self.config),
            p.body@ == anthropic_body(self.config, system@, user@),
    {
        let mut messages: Vec<Vec<char>> = Vec::new();
        messages.push(message_of("user", user));
        assert(texts(messages@) =~= seq![message("user"@, user@)]);
        let mut m: Vec<Vec<char>> = Vec::new();
        m.push(member_of("model", quote(self.config.model.as_str())));
        m.push(member_of("max_tokens", number_of(self.config.max_tokens as u64)));
        m.push(member_of("system", quote(system)));
        m.push(member_of("messages", array_of(&messages)));
        assert(texts(m@) =~= seq![
            member("model"@, json_string(self.config.model@)),
            member("max_tokens"@, decimal(self.config.max_tokens as nat)),
            member("system"@, json_string(system@)),
            member("messages"@, array(seq![message("user"@, user@)])),
        ]);
        let mut headers: Vec<Header> = Vec::new();
        headers.push(header("x-api-key", self.config.api_key.as_str()));
        headers.push(header("anthropic-version", ANTHROPIC_VERSION));
        headers.push(header("content-type", "application/json"));
        assert(pairs(headers@) =~= anthropic_headers(self.config));
        Post { url: ANTHROPIC_URL.to_owned(), headers, body: text_of(&object_of(&m)) }
    }

    /// Reads the service's answer: the completion, or why there is none.
    pub fn read_reply(&self, status: u16, body: &str) -> (r: Result<String, LlmError>)
        ensures
            match anthropic_reply(status, body@) {
                Some(text) => r matches Ok(t) && t@ == text,
                None => if is_success(status) {
                    r matches Err(LlmError::EmptyResponse)
                } else {
                    r matches Err(LlmError::Api(m)) && m@ == "Anthropic API error "@ + decimal(
                        status as nat,
                    ) + ": "@ + body@
                },
            },
    {
        if !success(status) {
            let mut m = chars_of("Anthropic API error ");
            push_decimal(&mut m, status as u64);
            push_str(&mut m, ": ");
            push_str(&mut m, body);
            return Err(LlmError::Api(text_of(&m)));
        }
        match text_at(body, "/content/0/text") {
            Some(t) => Ok(t),
            None => Err(LlmError::EmptyResponse),
        }
    }
}

/// A backend for the Anthropic Messages service.
pub fn create_anthropic_backend(config: AnthropicConfig) -> (r: Result<AnthropicBackend, LlmError>)
    ensures
        r matches Ok(b) && b.config == config,
{
    AnthropicBackend::new(config)
}

/// A service that speaks the OpenAI chat protocol: its settings. The
/// requests are made by whoever holds a client for the service.
#[derive(Debug, Clone)]
pub struct OpenAIBackend {
    pub config: OpenAIBackendConfig,
}

impl OpenAIBackend {
    /// A backend with the given settings.
    pub fn new(config: OpenAIBackendConfig) -> (r: Result<OpenAIBackend, LlmError>)
        ensures
            r matches Ok(b) && b.config == config,
    {
        Ok(OpenAIBackend { config })
    }

    /// The model's name.
    pub fn model_name(&self) -> (r: &str)
        ensures
            r@ == self.config.model@,
    {
        self.config.model.as_str()
    }
}

/// A backend for a service that speaks the OpenAI chat protocol.
pub fn create_backend(config: OpenAIBackendConfig) -> (r: Result<OpenAIBackend, LlmError>)
    ensures
        r matches Ok(b) && b.config == config,
{
    OpenAIBackend::new(config)
}

} // verus!
