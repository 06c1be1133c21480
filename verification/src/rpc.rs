//! The decisions of the tool server's JSON-RPC 2.0 layer.
//!
//! One JSON object arrives per line. The library reads the line, takes its `id`, `method` and
//! `params`, and decides what the request is and which error it gets; a line that is not JSON gets
//! the parse error. A request without an `id` is a notification and gets no reply; an
//! unknown method, a tool call without a tool name, and an unknown prompt or resource get the
//! JSON-RPC error codes for them. Nothing a client sends makes the server fail.

use crate::json::{
    entries_match, json_of, member, members_of, params_and_arguments, parse_json, request_parts,
    JsonValue,
};
use crate::tools::{arg_str, str_arg, ToolArgs};
use crate::text::{chars_of, is_word};
use vstd::prelude::*;
use vstd::string::StringExecFns;

verus! {

/// The protocol version this server speaks, offered when the client names none.
pub const PROTOCOL_VERSION: &'static str = "2025-06-18";

/// The JSON-RPC code for a line that is not JSON.
pub const PARSE_ERROR: i64 = -32700;

/// The JSON-RPC code for a method the server does not have.
pub const METHOD_NOT_FOUND: i64 = -32601;

/// The JSON-RPC code for parameters the method cannot use.
pub const INVALID_PARAMS: i64 = -32602;

/// The one prompt the server offers: the operator brief.
pub const OPERATOR_PROMPT: &'static str = "cowatcher_operator";

/// The one resource the server offers: the operator skill.
pub const SKILL_URI: &'static str = "cowatcher:///skill";

/// A JSON-RPC error to return to the client.
#[derive(Debug, Clone, PartialEq, Eq)]
pub struct RpcError {
    pub code: i64,
    pub message: String,
}

impl RpcError {
    /// The error for a line that is not JSON; `detail` is the parser's reason.
    pub fn parse(detail: &str) -> (e: Self)
        ensures
            e.code == PARSE_ERROR,
            e.message@ == "parse error: "@ + detail@,
    {
        let mut message = String::from_str("parse error: ");
        message.append(detail);
        RpcError { code: PARSE_ERROR, message }
    }
}

/// What the server does for one request.
#[derive(Debug, Clone, PartialEq, Eq)]
pub enum RpcStep {
    /// A notification: nothing is written back.
    NoReply,
    /// The handshake, answered with this protocol version.
    Initialize { protocol_version: String },
    Ping,
    ListTools,
    /// Runs the named tool with the request's `arguments`.
    CallTool { name: String },
    ListPrompts,
    GetPrompt,
    ListResources,
    ReadResource { uri: String },
    /// The request is answered with this error.
    Fail(RpcError),
}

/// An [`RpcStep`] as values.
pub enum RpcAnswer {
    NoReply,
    Initialize(Seq<char>),
    Ping,
    ListTools,
    CallTool(Seq<char>),
    ListPrompts,
    GetPrompt,
    ListResources,
    ReadResource(Seq<char>),
    Fail(i64, Seq<char>),
}

impl View for RpcStep {
    type V = RpcAnswer;

    open spec fn view(&self) -> RpcAnswer {
        match self {
            RpcStep::NoReply => RpcAnswer::NoReply,
            RpcStep::Initialize { protocol_version } => RpcAnswer::Initialize(protocol_version@),
            RpcStep::Ping => RpcAnswer::Ping,
            RpcStep::ListTools => RpcAnswer::ListTools,
            RpcStep::CallTool { name } => RpcAnswer::CallTool(name@),
            RpcStep::ListPrompts => RpcAnswer::ListPrompts,
            RpcStep::GetPrompt => RpcAnswer::GetPrompt,
            RpcStep::ListResources => RpcAnswer::ListResources,
            RpcStep::ReadResource { uri } => RpcAnswer::ReadResource(uri@),
            RpcStep::Fail(e) => RpcAnswer::Fail(e.code, e.message@),
        }
    }
}

/// The text given for `key` where it is a string, else nothing.
pub open spec fn text_arg(params: Seq<(String, crate::tools::ArgValue)>, key: Seq<char>) -> Seq<char> {
    match str_arg(params, key) {
        Some(t) => t,
        None => Seq::empty(),
    }
}

/// What the server does for a request with (or without) an `id`, the method `method` (empty
/// where the request names none) and the parameter entries `params`.
pub open spec fn route_spec(has_id: bool, method: Seq<char>, params: Seq<(String, crate::tools::ArgValue)>) -> RpcAnswer {
    if !has_id {
        RpcAnswer::NoReply
    } else if method == "initialize"@ {
        RpcAnswer::Initialize(
            match str_arg(params, "protocolVersion"@) {
                Some(v) => v,
                None => PROTOCOL_VERSION@,
            },
        )
    } else if method == "ping"@ {
        RpcAnswer::Ping
    } else if method == "tools/list"@ {
        RpcAnswer::ListTools
    } else if method == "tools/call"@ {
        match str_arg(params, "name"@) {
            Some(n) => RpcAnswer::CallTool(n),
            None => RpcAnswer::Fail(INVALID_PARAMS, "tools/call needs a tool name"@),
        }
    } else if method == "prompts/list"@ {
        RpcAnswer::ListPrompts
    } else if method == "prompts/get"@ {
        let name = text_arg(params, "name"@);
        if name == OPERATOR_PROMPT@ {
            RpcAnswer::GetPrompt
        } else {
            RpcAnswer::Fail(INVALID_PARAMS, "no such prompt: "@ + name)
        }
    } else if method == "resources/list"@ {
        RpcAnswer::ListResources
    } else if method == "resources/read"@ {
        let uri = text_arg(params, "uri"@);
        if uri == SKILL_URI@ {
            RpcAnswer::ReadResource(uri)
        } else {
            RpcAnswer::Fail(INVALID_PARAMS, "no such resource: "@ + uri)
        }
    } else {
        RpcAnswer::Fail(METHOD_NOT_FOUND, "method not found: "@ + method)
    }
}

fn text_or_empty(params: &ToolArgs, key: &str) -> (s: String)
    ensures
        s@ == text_arg(params.entries@, key@),
{
    match arg_str(params, key) {
        Ok(s) => s,
        Err(_) => String::new(),
    }
}

fn failure(code: i64, prefix: &str, what: &str) -> (step: RpcStep)
    ensures
        step@ == RpcAnswer::Fail(code, prefix@ + what@),
{
    let mut message = String::from_str(prefix);
    message.append(what);
    RpcStep::Fail(RpcError { code, message })
}

/// Decides what the server does for one request: `has_id` tells whether it carries an `id`,
/// `method` is its method (empty where it names none), and `params` the entries of its `params`.
pub fn route(has_id: bool, method: &str, params: &ToolArgs) -> (step: RpcStep)
    ensures
        step@ == route_spec(has_id, method@, params.entries@),
{
    proof {
        reveal_strlit("initialize");
        reveal_strlit("ping");
        reveal_strlit("tools/list");
        reveal_strlit("tools/call");
        reveal_strlit("prompts/list");
        reveal_strlit("prompts/get");
        reveal_strlit("resources/list");
        reveal_strlit("resources/read");
        assert("initialize"@.len() == 10);
        assert("ping"@.len() == 4);
        assert("tools/list"@.len() == 10);
        assert("tools/call"@.len() == 10);
        assert("prompts/list"@.len() == 12);
        assert("prompts/get"@.len() == 11);
        assert("resources/list"@.len() == 14);
        assert("resources/read"@.len() == 14);
        assert("initialize"@[0] == 'i');
        assert("tools/list"@[6] == 'l');
        assert("tools/call"@[6] == 'c');
        assert("resources/list"@[10] == 'l');
        assert("resources/read"@[10] == 'r');
    }
    if !has_id {
        return RpcStep::NoReply;
    }
    let v = chars_of(method);
    if is_word(&v, "initialize") {
        let protocol_version = match arg_str(params, "protocolVersion") {
            Ok(version) => version,
            Err(_) => String::from_str(PROTOCOL_VERSION),
        };
        RpcStep::Initialize { protocol_version }
    } else if is_word(&v, "ping") {
        RpcStep::Ping
    } else if is_word(&v, "tools/list") {
        RpcStep::ListTools
    } else if is_word(&v, "tools/call") {
        match arg_str(params, "name") {
            Ok(name) => RpcStep::CallTool { name },
            Err(_) => RpcStep::Fail(
                RpcError { code: INVALID_PARAMS, message: String::from_str("tools/call needs a tool name") },
            ),
        }
    } else if is_word(&v, "prompts/list") {
        RpcStep::ListPrompts
    } else if is_word(&v, "prompts/get") {
        let name = text_or_empty(params, "name");
        let n = chars_of(name.as_str());
        if is_word(&n, OPERATOR_PROMPT) {
            RpcStep::GetPrompt
        } else {
            failure(INVALID_PARAMS, "no such prompt: ", name.as_str())
        }
    } else if is_word(&v, "resources/list") {
        RpcStep::ListResources
    } else if is_word(&v, "resources/read") {
        let uri = text_or_empty(params, "uri");
        let u = chars_of(uri.as_str());
        if is_word(&u, SKILL_URI) {
            RpcStep::ReadResource { uri }
        } else {
            failure(INVALID_PARAMS, "no such resource: ", uri.as_str())
        }
    } else {
        failure(METHOD_NOT_FOUND, "method not found: ", method)
    }
}

/// Every request is answered and no notification is: a request with an `id` never goes without a
/// reply, whatever its method and parameters, and one without never gets one.
pub proof fn lemma_requests_are_answered(has_id: bool, method: Seq<char>, params: Seq<(String, crate::tools::ArgValue)>)
    ensures
        has_id <==> !(route_spec(has_id, method, params) is NoReply),
{
}


/// What the server does with one line of input.
#[derive(Debug)]
pub enum LineStep {
    /// The line is not JSON: it is answered with this error, under a null id.
    Malformed(RpcError),
    /// A notification (no `id`): nothing is written back.
    NoReply,
    /// A request, answered under its `id` as `step` says. `params` are the entries of its
    /// `params`, and `arguments` those of the tool arguments inside them.
    Reply { id: JsonValue, step: RpcStep, params: ToolArgs, arguments: ToolArgs },
}

/// The text of a request's `method`; empty where it has none or it is not a string.
pub open spec fn method_text(m: Option<JsonValue>) -> Seq<char> {
    match m {
        Some(JsonValue::Str(s)) => s@,
        _ => Seq::empty(),
    }
}

/// The members of a request's `params`; none where it has none or they are not an object.
pub open spec fn params_members(p: Option<JsonValue>) -> Seq<(String, JsonValue)> {
    match p {
        Some(v) => members_of(v),
        None => Seq::empty(),
    }
}

/// Answers one line of input: a line that is not JSON gets the parse error; a request without an
/// `id` gets nothing; any other gets what [`route`] decides for its method and the entries of its
/// `params`, under its `id`.
pub fn answer_line(line: &str) -> (s: LineStep)
    ensures
        json_of(line@) is None ==> (s matches LineStep::Malformed(e) && e.code == PARSE_ERROR
            && "parse error: "@.is_prefix_of(e.message@)),
        json_of(line@) matches Some(j) ==> match member(members_of(j), "id"@) {
            None => s is NoReply,
            Some(id) => s matches LineStep::Reply { id: rid, step, params, arguments } && {
                let p = params_members(member(members_of(j), "params"@));
                &&& rid == id
                &&& entries_match(params.entries@, p)
                &&& step@ == route_spec(true, method_text(member(members_of(j), "method"@)), params.entries@)
                &&& entries_match(
                    arguments.entries@,
                    match member(p, "arguments"@) {
                        Some(a) => members_of(a),
                        None => Seq::empty(),
                    },
                )
            },
        },
{
    let parsed = match parse_json(line) {
        Ok(v) => v,
        Err(detail) => {
            let e = RpcError::parse(detail.as_str());
            proof {
                reveal_strlit("parse error: ");
                assert("parse error: "@.is_prefix_of(e.message@)) by {
                    assert(e.message@.subrange(0, "parse error: "@.len() as int) =~= "parse error: "@);
                }
            }
            return LineStep::Malformed(e);
        },
    };
    let ghost j = parsed;
    let members = match parsed {
        JsonValue::Object(m) => m,
        _ => Vec::new(),
    };
    proof {
        assert(members@ =~= members_of(j));
    }
    let (id, method, params) = request_parts(members);
    let id = match id {
        Some(id) => id,
        None => {
            return LineStep::NoReply;
        },
    };
    let method_name = match method {
        Some(JsonValue::Str(m)) => m,
        _ => String::new(),
    };
    let ghost pm = params_members(params);
    let params_list = match params {
        Some(JsonValue::Object(m)) => m,
        _ => Vec::new(),
    };
    proof {
        assert(params_list@ =~= pm);
    }
    let (params, arguments) = params_and_arguments(params_list);
    let step = route(true, method_name.as_str(), &params);
    LineStep::Reply { id, step, params, arguments }
}

} // verus!
