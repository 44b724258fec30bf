//! The assistant chat: the provider configuration, the request sent to an
//! OpenAI-compatible API, and the events a chat stream sends to the browser.
use vstd::prelude::*;
use crate::text::{concat2, concat3, owned, str_eq};
use crate::json::{choice_content, choice_content_of, json_error_of, parse_error};

verus! {

// ---------------------------------------------------------------------------
// Provider configuration
// ---------------------------------------------------------------------------

/// Where and how the assistant's model is reached.
pub struct AiConfig {
    /// The provider the endpoint belongs to (`nvidia`, `ollama` or `custom`).
    pub provider: String,
    pub base_url: String,
    pub api_key: String,
    pub model: String,
    /// Whether an API key was configured (rather than the default).
    pub has_key: bool,
}

/// The endpoint of NVIDIA Build.
pub open spec fn nvidia_base_url() -> Seq<char> {
    "https://integrate.api.nvidia.com/v1"@
}

/// The provider an endpoint belongs to: NVIDIA Build's or Ollama's known
/// endpoint, else a custom one.
pub open spec fn provider_of(base_url: Seq<char>) -> Seq<char> {
    if base_url == nvidia_base_url() {
        "nvidia"@
    } else if base_url == default_base_url() {
        "ollama"@
    } else {
        "custom"@
    }
}

/// The provider an endpoint belongs to.
fn provider_for(base_url: &str) -> (r: String)
    ensures
        r@ == provider_of(base_url@),
{
    if str_eq(base_url, "https://integrate.api.nvidia.com/v1") {
        owned("nvidia")
    } else if str_eq(base_url, "http://localhost:11434/v1") {
        owned("ollama")
    } else {
        owned("custom")
    }
}

/// The default endpoint: a local Ollama server.
pub open spec fn default_base_url() -> Seq<char> {
    "http://localhost:11434/v1"@
}

/// The default model.
pub open spec fn default_model() -> Seq<char> {
    "qwen2.5-coder:7b"@
}

/// The value of a string option, or a literal.
fn value_or(o: Option<String>, dflt: &str) -> (r: String)
    ensures
        r@ == match o {
            Some(s) => s@,
            None => dflt@,
        },
{
    match o {
        Some(s) => s,
        None => owned(dflt),
    }
}

impl AiConfig {
    /// The configuration from the values of `AI_BASE_URL`, `AI_API_KEY` and
    /// `AI_MODEL`, each with its default.
    pub fn from_env(base_url: Option<String>, api_key: Option<String>, model: Option<String>) -> (c:
        Self)
        ensures
            c.base_url@ == match base_url {
                Some(s) => s@,
                None => default_base_url(),
            },
            c.api_key@ == match api_key {
                Some(s) => s@,
                None => "ollama"@,
            },
            c.model@ == match model {
                Some(s) => s@,
                None => default_model(),
            },
            c.provider@ == provider_of(c.base_url@),
            c.has_key == api_key is Some,
    {
        let has_key = api_key.is_some();
        let base_url = value_or(base_url, "http://localhost:11434/v1");
        let provider = provider_for(base_url.as_str());
        AiConfig {
            provider,
            base_url,
            api_key: value_or(api_key, "ollama"),
            model: value_or(model, "qwen2.5-coder:7b"),
            has_key,
        }
    }

    /// A copy of this configuration.
    pub fn duplicate(&self) -> (c: Self)
        ensures
            c == *self,
    {
        AiConfig {
            provider: self.provider.clone(),
            base_url: self.base_url.clone(),
            api_key: self.api_key.clone(),
            model: self.model.clone(),
            has_key: self.has_key,
        }
    }

    /// The configuration after a settings request: each value given replaces
    /// the one in effect; the provider is the one given, else the one the
    /// endpoint belongs to; a key given counts as configured.
    pub fn updated(
        &self,
        provider: Option<String>,
        model: Option<String>,
        base_url: Option<String>,
        api_key: Option<String>,
    ) -> (c: Self)
        ensures
            c.base_url@ == match base_url {
                Some(u) => u@,
                None => self.base_url@,
            },
            c.api_key@ == match api_key {
                Some(k) => k@,
                None => self.api_key@,
            },
            c.model@ == match model {
                Some(m) => m@,
                None => self.model@,
            },
            c.provider@ == match provider {
                Some(p) => p@,
                None => provider_of(c.base_url@),
            },
            c.has_key == (self.has_key || api_key is Some),
    {
        let has_key = self.has_key || api_key.is_some();
        let base_url = match base_url {
            Some(u) => u,
            None => self.base_url.clone(),
        };
        let api_key = match api_key {
            Some(k) => k,
            None => self.api_key.clone(),
        };
        let model = match model {
            Some(m) => m,
            None => self.model.clone(),
        };
        let provider = match provider {
            Some(p) => p,
            None => provider_for(base_url.as_str()),
        };
        AiConfig { provider, base_url, api_key, model, has_key }
    }

    /// The URL of the chat completions endpoint.
    pub fn completions_url(&self) -> (r: String)
        ensures
            r@ == self.base_url@ + "/chat/completions"@,
    {
        concat2(self.base_url.as_str(), "/chat/completions")
    }

    /// The `Authorization` header's value.
    pub fn authorization(&self) -> (r: String)
        ensures
            r@ == "Bearer "@ + self.api_key@,
    {
        concat2("Bearer ", self.api_key.as_str())
    }
}

/// The error for an API that answered with a failure status: the status
/// and the body of the answer, or `Unknown error` where the body could not be
/// read.
pub fn api_error_message(status: &str, body: Option<String>) -> (r: String)
    ensures
        r@ == "API error "@ + status@ + ": "@ + match body {
            Some(b) => b@,
            None => "Unknown error"@,
        },
{
    let b = value_or(body, "Unknown error");
    let a = concat3("API error ", status, ": ");
    concat2(a.as_str(), b.as_str())
}

/// The error for a request that could not be sent.
pub fn request_failed_message(error: &str) -> (r: String)
    ensures
        r@ == "HTTP request failed: "@ + error@,
{
    concat2("HTTP request failed: ", error)
}

/// The error for a model stream that broke off.
pub fn stream_error_message(error: &str) -> (r: String)
    ensures
        r@ == "Stream error: "@ + error@,
{
    concat2("Stream error: ", error)
}

/// The error for a reply that could not be read as JSON.
pub fn reply_parse_error(error: &str) -> (r: String)
    ensures
        r@ == "JSON parse error: "@ + error@,
{
    concat2("JSON parse error: ", error)
}

/// The text reqwest gives for a response body that does not decode.
pub open spec fn decode_error_text() -> Seq<char> {
    "error decoding response body"@
}

/// The reply a non-streamed chat gives for the response body `body`: the
/// first choice's message content (`choices[0].message.content`), or empty;
/// when the body is not JSON, the error reqwest reports for it.
pub open spec fn reply_of(body: Seq<char>) -> Result<Seq<char>, Seq<char>> {
    if json_error_of(body) is Some {
        Err("JSON parse error: "@ + decode_error_text())
    } else {
        Ok(
            match choice_content(body, "message"@) {
                Some(c) => c,
                None => Seq::empty(),
            },
        )
    }
}

/// The reply of a non-streamed chat, from the response body (see
/// `reply_of`).
pub fn chat_reply(body: &str) -> (r: Result<String, String>)
    ensures
        match r {
            Ok(t) => reply_of(body@) == Ok::<Seq<char>, Seq<char>>(t@),
            Err(e) => reply_of(body@) == Err::<Seq<char>, Seq<char>>(e@),
        },
{
    match parse_error(body) {
        Some(_) => Err(reply_parse_error("error decoding response body")),
        None => Ok(reply_text(choice_content_of(body, "message"))),
    }
}

/// The text a streamed delta contributes: its content when non-empty.
pub fn delta_text(content: Option<String>) -> (r: Option<String>)
    ensures
        match r {
            Some(t) => content is Some && t@ == content->0@ && t@.len() > 0,
            None => content is None || content->0@.len() == 0,
        },
{
    match content {
        Some(c) => if c.as_str().is_empty() {
            None
        } else {
            Some(c)
        },
        None => None,
    }
}

/// The reply of a non-streamed chat: the message's content, or empty.
pub fn reply_text(content: Option<String>) -> (r: String)
    ensures
        r@ == match content {
            Some(c) => c@,
            None => Seq::<char>::empty(),
        },
{
    match content {
        Some(c) => c,
        None => String::new(),
    }
}

// ---------------------------------------------------------------------------
// Conversation
// ---------------------------------------------------------------------------

/// One message of a conversation.
pub struct ChatMessage {
    pub role: String,
    pub content: String,
}

/// The instructions the assistant is given before the conversation.
pub open spec fn system_prompt() -> Seq<char> {
    "You are PocketDevOS, an AI coding assistant running inside a terminal on an Android device. You have access to the filesystem and can run shell commands.\n\nRules:\n- Execute, don't echo. When asked to create/edit a file, use the tool directly.\n- Chain actions: read \u{2192} understand \u{2192} change \u{2192} verify.\n- Be concise. No filler.\n- Bare filenames resolve to the current working directory.\n- For write_file and run_command, the user must approve before execution."@
}

/// A message as a pair of role and content.
pub open spec fn message_view(m: ChatMessage) -> (Seq<char>, Seq<char>) {
    (m.role@, m.content@)
}

/// The messages sent to the model: the system prompt, then the conversation
/// in order.
pub fn build_messages(messages: Vec<ChatMessage>) -> (r: Vec<ChatMessage>)
    ensures
        r@.map_values(|m: ChatMessage| message_view(m)) == seq![("system"@, system_prompt())]
            + messages@.map_values(|m: ChatMessage| message_view(m)),
{
    let mut r: Vec<ChatMessage> = Vec::new();
    r.push(
        ChatMessage {
            role: owned("system"),
            content: owned(
                "You are PocketDevOS, an AI coding assistant running inside a terminal on an Android device. You have access to the filesystem and can run shell commands.\n\nRules:\n- Execute, don't echo. When asked to create/edit a file, use the tool directly.\n- Chain actions: read \u{2192} understand \u{2192} change \u{2192} verify.\n- Be concise. No filler.\n- Bare filenames resolve to the current working directory.\n- For write_file and run_command, the user must approve before execution.",
            ),
        },
    );
    let mut rest = messages;
    let ghost all = rest@;
    let ghost mut taken: Seq<ChatMessage> = Seq::empty();
    assert(all =~= taken + rest@);
    while rest.len() > 0
        invariant
            all == taken + rest@,
            r@.map_values(|m: ChatMessage| message_view(m)) == seq![("system"@, system_prompt())]
                + taken.map_values(|m: ChatMessage| message_view(m)),
        decreases rest@.len(),
    {
        let m = rest.remove(0);
        let ghost before = r@.map_values(|m: ChatMessage| message_view(m));
        proof {
            let old_taken = taken;
            taken = taken.push(m);
            assert(all =~= taken + rest@);
            assert(taken.map_values(|m: ChatMessage| message_view(m)) =~= old_taken.map_values(
                |m: ChatMessage| message_view(m),
            ).push(message_view(m)));
        }
        r.push(m);
        assert(r@.map_values(|m: ChatMessage| message_view(m)) =~= before.push(message_view(m)));
    }
    assert(all =~= taken);
    r
}

// ---------------------------------------------------------------------------
// The chat stream
// ---------------------------------------------------------------------------

/// An event sent to the browser.
pub enum ChatEvent {
    Text(String),
    Error(String),
    Done,
}

/// What the chat stream does after one step.
pub struct ChatStep {
    /// The event to send.
    pub event: ChatEvent,
    /// The stream ends after this event.
    pub finished: bool,
    /// The chat leaves the table of running chats.
    pub deregister: bool,
}

/// The step for a model stream that could not be opened: an error, and the
/// end.
pub fn on_open_failed(error: String) -> (s: ChatStep)
    ensures
        s.event matches ChatEvent::Error(e) && e@ == error@,
        s.finished,
        !s.deregister,
{
    ChatStep { event: ChatEvent::Error(error), finished: true, deregister: false }
}

/// The step for the next item of the model stream (`None` when the model
/// stream has ended), given whether the chat was stopped meanwhile. A stopped
/// chat ends with `done`; a chunk is passed on as text; an error ends the
/// stream; the end of the model stream ends it with `done`, and only then does
/// the chat leave the table of running chats.
pub fn on_item(stopped: bool, item: Option<Result<String, String>>) -> (s: ChatStep)
    ensures
        match item {
            None => s.event is Done && s.finished && s.deregister,
            Some(it) => if stopped {
                s.event is Done && s.finished && !s.deregister
            } else {
                match it {
                    Ok(c) => (s.event matches ChatEvent::Text(t) && t@ == c@) && !s.finished
                        && !s.deregister,
                    Err(e) => (s.event matches ChatEvent::Error(m) && m@ == e@) && s.finished
                        && !s.deregister,
                }
            },
        },
{
    match item {
        None => ChatStep { event: ChatEvent::Done, finished: true, deregister: true },
        Some(it) => {
            if stopped {
                ChatStep { event: ChatEvent::Done, finished: true, deregister: false }
            } else {
                match it {
                    Ok(c) => ChatStep { event: ChatEvent::Text(c), finished: false, deregister: false },
                    Err(e) => ChatStep { event: ChatEvent::Error(e), finished: true, deregister: false },
                }
            }
        },
    }
}

/// A server-sent event carrying `json`.
pub fn sse_frame(json: &str) -> (r: String)
    ensures
        r@ == "data: "@ + json@ + "\n\n"@,
{
    concat3("data: ", json, "\n\n")
}

// ---------------------------------------------------------------------------
// Provider catalog
// ---------------------------------------------------------------------------

/// A provider the browser can choose.
pub struct ProviderInfo {
    pub id: String,
    pub name: String,
    pub base_url: String,
    pub requires_key: bool,
    pub description: String,
}

/// A model the browser can choose.
pub struct ModelInfo {
    pub id: String,
    pub provider: String,
    pub label: String,
    pub description: String,
}

/// The configuration in use.
pub struct CurrentConfig {
    pub provider: String,
    pub model: String,
    pub base_url: String,
    pub has_key: bool,
}

/// What the configuration endpoint answers.
pub struct ConfigCatalog {
    pub providers: Vec<ProviderInfo>,
    pub models: Vec<ModelInfo>,
    pub current: CurrentConfig,
}

fn provider(id: &str, name: &str, base_url: &str, requires_key: bool, description: &str) -> (p:
    ProviderInfo)
    ensures
        p.id@ == id@ && p.name@ == name@ && p.base_url@ == base_url@ && p.requires_key
            == requires_key && p.description@ == description@,
{
    ProviderInfo {
        id: owned(id),
        name: owned(name),
        base_url: owned(base_url),
        requires_key,
        description: owned(description),
    }
}

fn model(id: &str, provider: &str, label: &str, description: &str) -> (m: ModelInfo)
    ensures
        m.id@ == id@ && m.provider@ == provider@ && m.label@ == label@ && m.description@
            == description@,
{
    ModelInfo {
        id: owned(id),
        provider: owned(provider),
        label: owned(label),
        description: owned(description),
    }
}

/// The providers and models offered to the browser, and the configuration
/// in effect, `cfg`.
pub fn config_catalog(cfg: &AiConfig) -> (c: ConfigCatalog)
    ensures
        c.providers@.len() == 3,
        c.providers@[0].id@ == "nvidia"@ && c.providers@[0].name@ == "NVIDIA Build"@
            && c.providers@[0].base_url@ == "https://integrate.api.nvidia.com/v1"@
            && c.providers@[0].requires_key && c.providers@[0].description@ == "NVIDIA Build API"@,
        c.providers@[1].id@ == "ollama"@ && c.providers@[1].name@ == "Ollama (Local)"@
            && c.providers@[1].base_url@ == default_base_url() && !c.providers@[1].requires_key
            && c.providers@[1].description@ == "Local models via Ollama"@,
        c.providers@[2].id@ == "custom"@ && c.providers@[2].name@ == "Custom Endpoint"@
            && c.providers@[2].base_url@ == Seq::<char>::empty() && !c.providers@[2].requires_key
            && c.providers@[2].description@ == "Any OpenAI-compatible endpoint"@,
        c.models@.len() == 5,
        c.models@[0].id@ == "nvidia/llama-3.3-nemotron-super-49b-v1"@ && c.models@[0].provider@
            == "nvidia"@ && c.models@[0].label@ == "Llama 3.3 Nemotron Super 49B"@
            && c.models@[0].description@ == "NVIDIA's top-tier reasoning model"@,
        c.models@[1].id@ == "google/gemma-3-27b-it"@ && c.models@[1].provider@ == "nvidia"@
            && c.models@[1].label@ == "Gemma 3 27B IT"@ && c.models@[1].description@
            == "Google Gemma 3 via NVIDIA"@,
        c.models@[2].id@ == "meta/llama-3.1-70b-instruct"@ && c.models@[2].provider@ == "nvidia"@
            && c.models@[2].label@ == "Llama 3.1 70B Instruct"@ && c.models@[2].description@
            == "Meta Llama 3.1 via NVIDIA"@,
        c.models@[3].id@ == "gemma4:12b"@ && c.models@[3].provider@ == "ollama"@
            && c.models@[3].label@ == "Gemma 4 12B"@ && c.models@[3].description@
            == "Google Gemma 4 local"@,
        c.models@[4].id@ == default_model() && c.models@[4].provider@ == "ollama"@
            && c.models@[4].label@ == "Qwen 2.5 Coder 7B"@ && c.models@[4].description@
            == "Coding-focused local model"@,
        c.current.provider@ == cfg.provider@ && c.current.model@ == cfg.model@
            && c.current.base_url@ == cfg.base_url@ && c.current.has_key == cfg.has_key,
{
    let mut providers: Vec<ProviderInfo> = Vec::new();
    providers.push(
        provider(
            "nvidia",
            "NVIDIA Build",
            "https://integrate.api.nvidia.com/v1",
            true,
            "NVIDIA Build API",
        ),
    );
    providers.push(
        provider(
            "ollama",
            "Ollama (Local)",
            "http://localhost:11434/v1",
            false,
            "Local models via Ollama",
        ),
    );
    let custom = ProviderInfo {
        id: owned("custom"),
        name: owned("Custom Endpoint"),
        base_url: String::new(),
        requires_key: false,
        description: owned("Any OpenAI-compatible endpoint"),
    };
    providers.push(custom);
    let mut models: Vec<ModelInfo> = Vec::new();
    models.push(
        model(
            "nvidia/llama-3.3-nemotron-super-49b-v1",
            "nvidia",
            "Llama 3.3 Nemotron Super 49B",
            "NVIDIA's top-tier reasoning model",
        ),
    );
    models.push(
        model("google/gemma-3-27b-it", "nvidia", "Gemma 3 27B IT", "Google Gemma 3 via NVIDIA"),
    );
    models.push(
        model(
            "meta/llama-3.1-70b-instruct",
            "nvidia",
            "Llama 3.1 70B Instruct",
            "Meta Llama 3.1 via NVIDIA",
        ),
    );
    models.push(model("gemma4:12b", "ollama", "Gemma 4 12B", "Google Gemma 4 local"));
    models.push(
        model("qwen2.5-coder:7b", "ollama", "Qwen 2.5 Coder 7B", "Coding-focused local model"),
    );
    let current = CurrentConfig {
        provider: cfg.provider.clone(),
        model: cfg.model.clone(),
        base_url: cfg.base_url.clone(),
        has_key: cfg.has_key,
    };
    ConfigCatalog { providers, models, current }
}

} // verus!
