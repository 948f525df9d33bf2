use vstd::prelude::*;
use crate::json::{Json, JsonValue, json_entries, json_items, lemma_json_entries, lemma_json_items_push, member_text};
use crate::models::{OllamaModel, copy_optional_strings, copy_strings};
use crate::text::{lemma_trim_end_char, owned, push_str, trim_end, trim_end_char};

verus! {

/// The answer of `GET /api/tags`.
#[derive(Debug, Clone)]
pub struct OllamaTagResponse {
    pub models: Vec<OllamaTagModel>,
}

/// One model of the `/api/tags` answer.
#[derive(Debug, Clone)]
pub struct OllamaTagModel {
    pub name: String,
    pub model: String,
    pub modified_at: String,
    pub size: u64,
    pub digest: String,
    pub details: OllamaModelDetails,
}

/// The details of a model; each missing field reads as empty.
#[derive(Debug, Clone)]
pub struct OllamaModelDetails {
    pub format: String,
    pub family: String,
    pub families: Option<Vec<String>>,
    pub parameter_size: String,
    pub quantization_level: String,
}

impl Default for OllamaModelDetails {
    fn default() -> (r: OllamaModelDetails)
        ensures
            r.format@ == Seq::<char>::empty(),
            r.family@ == Seq::<char>::empty(),
            r.families is None,
            r.parameter_size@ == Seq::<char>::empty(),
            r.quantization_level@ == Seq::<char>::empty(),
    {
        OllamaModelDetails {
            format: String::new(),
            family: String::new(),
            families: None,
            parameter_size: String::new(),
            quantization_level: String::new(),
        }
    }
}

/// A message of the chat protocol.
#[derive(Debug)]
pub struct OllamaMessage {
    pub role: String,
    pub content: String,
    pub tool_calls: Option<Vec<JsonValue>>,
    pub images: Option<Vec<String>>,
}

/// A message of the chat protocol by its values.
pub struct MessageView {
    pub role: Seq<char>,
    pub content: Seq<char>,
    pub tool_calls: Option<Seq<Json>>,
    pub images: Option<Seq<Seq<char>>>,
}

impl View for OllamaMessage {
    type V = MessageView;

    open spec fn view(&self) -> MessageView {
        MessageView {
            role: self.role@,
            content: self.content@,
            tool_calls: match self.tool_calls {
                Some(v) => Some(json_items(v@)),
                None => None,
            },
            images: match self.images {
                Some(v) => Some(v@.map_values(|s: String| s@)),
                None => None,
            },
        }
    }
}

/// The messages by their values.
pub open spec fn message_views(ms: Seq<OllamaMessage>) -> Seq<MessageView> {
    ms.map_values(|m: OllamaMessage| m@)
}

impl OllamaMessage {
    /// An independent copy of the message.
    pub fn deep_copy(&self) -> (r: OllamaMessage)
        ensures
            r@ == self@,
    {
        let tool_calls = match &self.tool_calls {
            Some(v) => Some(copy_json_values(v)),
            None => None,
        };
        let images = match &self.images {
            Some(v) => {
                let c = copy_strings(v);
                Some(c)
            },
            None => None,
        };
        OllamaMessage { role: self.role.clone(), content: self.content.clone(), tool_calls, images }
    }
}

/// Independent copies of the values.
pub fn copy_json_values(v: &Vec<JsonValue>) -> (r: Vec<JsonValue>)
    ensures
        json_items(r@) == json_items(v@),
{
    let mut r: Vec<JsonValue> = Vec::new();
    let mut i: usize = 0;
    while i < v.len()
        invariant
            i <= v.len(),
            json_items(r@) == json_items(v@.subrange(0, i as int)),
        decreases v.len() - i,
    {
        let c = v[i].deep_copy();
        proof {
            lemma_json_items_push(r@, c);
            lemma_json_items_push(v@.subrange(0, i as int), v@[i as int]);
            assert(v@.subrange(0, i as int).push(v@[i as int]) =~= v@.subrange(0, i + 1));
        }
        r.push(c);
        i = i + 1;
    }
    assert(v@.subrange(0, v.len() as int) =~= v@);
    r
}

/// Independent copies of the messages.
pub fn copy_messages(v: &Vec<OllamaMessage>) -> (r: Vec<OllamaMessage>)
    ensures
        message_views(r@) == message_views(v@),
{
    let mut r: Vec<OllamaMessage> = Vec::new();
    let mut i: usize = 0;
    while i < v.len()
        invariant
            i <= v.len(),
            message_views(r@) == message_views(v@.subrange(0, i as int)),
        decreases v.len() - i,
    {
        let c = v[i].deep_copy();
        let ghost before = r@;
        r.push(c);
        proof {
            assert(message_views(r@) =~= message_views(before).push(c@));
            assert(message_views(v@.subrange(0, i + 1)) =~= message_views(v@.subrange(0, i as int)).push(
                v@[i as int]@,
            ));
        }
        i = i + 1;
    }
    assert(v@.subrange(0, v.len() as int) =~= v@);
    r
}

/// The body of `POST /api/chat`.
#[derive(Debug)]
pub struct ChatRequest {
    pub model: String,
    pub messages: Vec<OllamaMessage>,
    pub tools: Option<Vec<JsonValue>>,
    pub stream: bool,
    pub options: Option<Vec<(String, JsonValue)>>,
}

/// One answer object of `/api/chat`; a whole answer when not streaming.
#[derive(Debug)]
pub struct ChatStreamChunk {
    pub message: Option<OllamaMessage>,
    pub done: bool,
    pub done_reason: String,
}

#[verifier::external_type_specification]
#[verifier::external_body]
pub struct ExHttpClient(reqwest::Client);

/// Calls `reqwest::Client::new`.  Nothing is claimed of the client; the
/// function panics when the platform's TLS backend or resolver cannot start,
/// which depends on the machine and not on any argument.
#[verifier::external_body]
fn new_http_client() -> reqwest::Client {
    reqwest::Client::new()
}

/// A client of the Ollama server at a base address.
pub struct OllamaClient {
    base_url: String,
    http: reqwest::Client,
}

/// The model as the interface lists it, made from an `/api/tags` entry.
pub open spec fn model_from_tag(m: OllamaTagModel) -> OllamaModel {
    OllamaModel {
        name: m.name,
        model: m.model,
        size: m.size,
        parameter_size: m.details.parameter_size,
        format: m.details.format,
        family: m.details.family,
        families: m.details.families,
        quantization_level: m.details.quantization_level,
    }
}

/// Field by field, `a` holds the same values as `b`.
pub open spec fn same_model(a: OllamaModel, b: OllamaModel) -> bool {
    &&& a.name@ == b.name@
    &&& a.model@ == b.model@
    &&& a.size == b.size
    &&& a.parameter_size@ == b.parameter_size@
    &&& a.format@ == b.format@
    &&& a.family@ == b.family@
    &&& a.quantization_level@ == b.quantization_level@
    &&& match (a.families, b.families) {
        (Some(x), Some(y)) => x@ == y@,
        (None, None) => true,
        _ => false,
    }
}

/// The models that an `/api/tags` answer lists, in its order.
pub fn models_from_tags(resp: &OllamaTagResponse) -> (r: Vec<OllamaModel>)
    ensures
        r@.len() == resp.models@.len(),
        forall|i: int|
            0 <= i < r@.len() ==> same_model(#[trigger] r@[i], model_from_tag(resp.models@[i])),
{
    let mut r: Vec<OllamaModel> = Vec::new();
    let mut i: usize = 0;
    while i < resp.models.len()
        invariant
            i <= resp.models.len(),
            r@.len() == i,
            forall|k: int|
                0 <= k < i ==> same_model(#[trigger] r@[k], model_from_tag(resp.models@[k])),
        decreases resp.models.len() - i,
    {
        let m = &resp.models[i];
        let item = OllamaModel {
            name: m.name.clone(),
            model: m.model.clone(),
            size: m.size,
            parameter_size: m.details.parameter_size.clone(),
            format: m.details.format.clone(),
            family: m.details.family.clone(),
            families: copy_optional_strings(&m.details.families),
            quantization_level: m.details.quantization_level.clone(),
        };
        r.push(item);
        i = i + 1;
    }
    r
}

impl OllamaClient {
    /// A client of the server at `base_url`, kept without its trailing slashes.
    pub fn new(base_url: &str) -> (r: OllamaClient)
        ensures
            r.base_url_view() == trim_end_char(base_url@, '/'),
    {
        OllamaClient { base_url: trim_end(base_url, '/'), http: new_http_client() }
    }

    /// The base address, without trailing slashes.
    pub closed spec fn base_url_view(&self) -> Seq<char> {
        self.base_url@
    }

    /// A base address set through `new` or `set_base_url` never ends with a
    /// slash, so the endpoint addresses never hold a doubled one there.
    pub proof fn lemma_base_url_clean(url: Seq<char>)
        ensures
            trim_end_char(url, '/').len() == 0 || trim_end_char(url, '/').last() != '/',
            trim_end_char(trim_end_char(url, '/'), '/') == trim_end_char(url, '/'),
    {
        lemma_trim_end_char(url, '/');
    }

    /// Points the client at another server.
    pub fn set_base_url(&mut self, url: &str)
        ensures
            final(self).base_url_view() == trim_end_char(url@, '/'),
            final(self).http_client() == old(self).http_client(),
    {
        self.base_url = trim_end(url, '/');
    }

    /// The base address.
    pub fn base_url(&self) -> (r: &str)
        ensures
            r@ == self.base_url_view(),
    {
        self.base_url.as_str()
    }

    /// The HTTP client that the client holds; every request goes through it.
    pub closed spec fn http_client(&self) -> reqwest::Client {
        self.http
    }

    /// The HTTP client that carries the requests: the one the client holds.
    pub fn http(&self) -> (r: &reqwest::Client)
        ensures
            *r == self.http_client(),
    {
        &self.http
    }

    /// The address of the model list.
    pub fn tags_url(&self) -> (r: String)
        ensures
            r@ == self.base_url_view() + "/api/tags"@,
    {
        let mut r = self.base_url.clone();
        push_str(&mut r, "/api/tags");
        r
    }

    /// The address of the chat endpoint.
    pub fn chat_url(&self) -> (r: String)
        ensures
            r@ == self.base_url_view() + "/api/chat"@,
    {
        let mut r = self.base_url.clone();
        push_str(&mut r, "/api/chat");
        r
    }

    /// The address of the completion endpoint.
    pub fn generate_url(&self) -> (r: String)
        ensures
            r@ == self.base_url_view() + "/api/generate"@,
    {
        let mut r = self.base_url.clone();
        push_str(&mut r, "/api/generate");
        r
    }
}

impl ChatRequest {
    /// The body of a chat request.
    pub fn new(
        model: &str,
        messages: Vec<OllamaMessage>,
        tools: Option<Vec<JsonValue>>,
        stream: bool,
        options: Option<Vec<(String, JsonValue)>>,
    ) -> (r: ChatRequest)
        ensures
            r.model@ == model@,
            r.messages == messages,
            r.tools == tools,
            r.stream == stream,
            r.options == options,
    {
        ChatRequest { model: String::from_str(model), messages, tools, stream, options }
    }
}

impl ChatStreamChunk {
    /// The text of the answer; empty when the answer carries no message.
    pub fn reply_text(self) -> (r: String)
        ensures
            r@ == match self.message {
                Some(m) => m.content@,
                None => Seq::<char>::empty(),
            },
    {
        match self.message {
            Some(m) => m.content,
            None => String::new(),
        }
    }
}

/// The body of `POST /api/generate`.
pub open spec fn generate_body_json(model: Seq<char>, prompt: Seq<char>, system: Option<Seq<char>>) -> Json {
    let base = seq![
        ("model"@, Json::String(model)),
        ("prompt"@, Json::String(prompt)),
        ("stream"@, Json::Bool(false)),
    ];
    match system {
        Some(s) => Json::Object(base.push(("system"@, Json::String(s)))),
        None => Json::Object(base),
    }
}

/// The body of a completion request: model, prompt, no streaming, and the
/// system text when there is one.
pub fn generate_body(model: &str, prompt: &str, system: Option<&str>) -> (r: JsonValue)
    ensures
        r@ == generate_body_json(
            model@,
            prompt@,
            match system {
                Some(s) => Some(s@),
                None => None,
            },
        ),
{
    let mut members: Vec<(String, JsonValue)> = Vec::new();
    members.push((owned("model"), JsonValue::text(model)));
    members.push((owned("prompt"), JsonValue::text(prompt)));
    members.push((owned("stream"), JsonValue::Bool(false)));
    match system {
        Some(s) => {
            members.push((owned("system"), JsonValue::text(s)));
        },
        None => {},
    }
    proof {
        lemma_json_entries(members@);
        let es = json_entries(members@);
        match system {
            Some(s) => {
                assert(es =~= seq![
                    ("model"@, Json::String(model@)),
                    ("prompt"@, Json::String(prompt@)),
                    ("stream"@, Json::Bool(false)),
                ].push(("system"@, Json::String(s@))));
            },
            None => {
                assert(es =~= seq![
                    ("model"@, Json::String(model@)),
                    ("prompt"@, Json::String(prompt@)),
                    ("stream"@, Json::Bool(false)),
                ]);
            },
        }
    }
    let r = JsonValue::Object(members);
    assert(r@ == Json::Object(json_entries(members@)));
    r
}

/// The text of a completion answer: its `response` member when that is a
/// string, otherwise empty.
pub fn generate_reply_text(answer: &JsonValue) -> (r: String)
    ensures
        r@ == match member_text(answer@, "response"@) {
            Some(t) => t,
            None => Seq::<char>::empty(),
        },
{
    match answer.member_str("response") {
        Some(t) => t,
        None => String::new(),
    }
}

} // verus!
