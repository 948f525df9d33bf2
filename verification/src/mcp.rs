use vstd::prelude::*;
use std::collections::HashMap;
use crate::json::{Json, JsonValue, json_entries, lemma_json_entries};
use crate::text::owned;

verus! {

/// How to start a Model Context Protocol server.
#[derive(Debug, Clone)]
pub struct McpServerConfig {
    pub name: String,
    pub command: String,
    pub args: Vec<String>,
    pub env: HashMap<String, String>,
    pub enabled: bool,
}

/// A JSON-RPC 2.0 request.
#[derive(Debug)]
pub struct JsonRpcRequest {
    pub jsonrpc: String,
    pub id: u64,
    pub method: String,
    pub params: Option<JsonValue>,
}

/// A JSON-RPC 2.0 response.
#[derive(Debug)]
pub struct JsonRpcResponse {
    pub jsonrpc: String,
    pub id: Option<u64>,
    pub result: Option<JsonValue>,
    pub error: Option<JsonValue>,
}

/// The protocol revision that the client speaks.
pub const PROTOCOL_VERSION: &'static str = "2024-11-05";

/// The parameters of `initialize`: the protocol revision, no capabilities,
/// and the client's name and version.
pub open spec fn initialize_params() -> Json {
    Json::Object(
        seq![
            ("protocolVersion"@, Json::String(PROTOCOL_VERSION@)),
            ("capabilities"@, Json::Object(Seq::empty())),
            (
                "clientInfo"@,
                Json::Object(
                    seq![("name"@, Json::String("juno"@)), ("version"@, Json::String("0.1.0"@))],
                ),
            ),
        ],
    )
}

/// An object of the given members, in order.
fn object_of(members: Vec<(String, JsonValue)>) -> (r: JsonValue)
    ensures
        r@ == Json::Object(json_entries(members@)),
{
    JsonValue::Object(members)
}

/// The request that opens a session: `initialize`, with id 1.
pub fn initialize_request() -> (r: JsonRpcRequest)
    ensures
        r.jsonrpc@ == "2.0"@,
        r.id == 1,
        r.method@ == "initialize"@,
        r.params matches Some(p) && p@ == initialize_params(),
{
    let mut client: Vec<(String, JsonValue)> = Vec::new();
    client.push((owned("name"), JsonValue::text("juno")));
    client.push((owned("version"), JsonValue::text("0.1.0")));
    let mut params: Vec<(String, JsonValue)> = Vec::new();
    params.push((owned("protocolVersion"), JsonValue::text(PROTOCOL_VERSION)));
    params.push((owned("capabilities"), JsonValue::Object(Vec::new())));
    params.push((owned("clientInfo"), object_of(client)));
    proof {
        lemma_json_entries(client@);
        lemma_json_entries(params@);
        assert(json_entries(client@) =~= seq![
            ("name"@, Json::String("juno"@)),
            ("version"@, Json::String("0.1.0"@)),
        ]);
        assert(json_entries(Seq::<(String, JsonValue)>::empty()) =~= Seq::<(Seq<char>, Json)>::empty());
        assert(json_entries(params@) =~= seq![
            ("protocolVersion"@, Json::String(PROTOCOL_VERSION@)),
            ("capabilities"@, Json::Object(Seq::empty())),
            (
                "clientInfo"@,
                Json::Object(
                    seq![("name"@, Json::String("juno"@)), ("version"@, Json::String("0.1.0"@))],
                ),
            ),
        ]);
    }
    JsonRpcRequest {
        jsonrpc: owned("2.0"),
        id: 1,
        method: owned("initialize"),
        params: Some(object_of(params)),
    }
}

/// The notification that ends the opening of a session.
pub open spec fn initialized_json() -> Json {
    Json::Object(
        seq![
            ("jsonrpc"@, Json::String("2.0"@)),
            ("method"@, Json::String("initialized"@)),
            ("params"@, Json::Object(Seq::empty())),
        ],
    )
}

/// The notification `initialized`, with empty parameters.
pub fn initialized_notification() -> (r: JsonValue)
    ensures
        r@ == initialized_json(),
{
    let mut m: Vec<(String, JsonValue)> = Vec::new();
    m.push((owned("jsonrpc"), JsonValue::text("2.0")));
    m.push((owned("method"), JsonValue::text("initialized")));
    m.push((owned("params"), JsonValue::Object(Vec::new())));
    proof {
        lemma_json_entries(m@);
        assert(json_entries(Seq::<(String, JsonValue)>::empty()) =~= Seq::<(Seq<char>, Json)>::empty());
        assert(json_entries(m@) =~= seq![
            ("jsonrpc"@, Json::String("2.0"@)),
            ("method"@, Json::String("initialized"@)),
            ("params"@, Json::Object(Seq::empty())),
        ]);
    }
    object_of(m)
}

} // verus!
