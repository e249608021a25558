//! The JSON-RPC side of the MCP endpoint: one request object per message, four methods, and
//! three tools whose arguments are read and checked here before anything reaches the API.

use vstd::prelude::*;

use crate::json::{get, jv, member, str_get, str_member, Json, JsonV};
use crate::mcp::gate::{any_write, Perms};
use crate::mcp::shape::{shape_from, shape_of, Shape};
use crate::text::{ascii_upper, chars_of, str_eq, string_of, upper_vec};

verus! {

/// A JSON-RPC error object: its code and its message.
#[derive(Debug)]
pub struct RpcError {
    pub code: i64,
    pub message: String,
}

/// The JSON-RPC error code for invalid parameters.
pub const INVALID_PARAMS: i64 = -32602;

fn rpc_error(code: i64, message: String) -> (e: RpcError)
    ensures
        e.code == code,
        e.message@ == message@,
{
    RpcError { code, message }
}

/// A request, read from its envelope.
pub struct RpcRequest {
    /// The request's id, returned with its answer.
    pub id: Json,
    /// The method called; empty when the request names none.
    pub method: String,
    /// The parameters; `null` when there are none.
    pub params: Json,
}

/// Read one message's envelope. A message that is not an object is refused (batches are not
/// part of the protocol any more); one without an `id` is a notification, which gets no
/// answer (`Ok(None)`).
pub fn rpc_envelope(msg: &Json) -> (r: Result<Option<RpcRequest>, RpcError>)
    ensures
        !(jv(*msg) is Obj) ==> (r matches Err(e) && e.code == -32600
            && e.message@ == "expected a single JSON-RPC object"@),
        jv(*msg) is Obj && member(jv(*msg), "id"@) is None ==> r matches Ok(None),
        jv(*msg) is Obj && member(jv(*msg), "id"@) is Some ==> (r matches Ok(Some(q))
            && member(jv(*msg), "id"@) == Some(jv(q.id))
            && q.method@ == (match str_member(jv(*msg), "method"@) {
                Some(m) => m,
                None => Seq::empty(),
            })
            && jv(q.params) == (match member(jv(*msg), "params"@) {
                Some(p) => p,
                None => JsonV::Null,
            })),
{
    match msg {
        Json::Obj(_) => {},
        _ => {
            return Err(rpc_error(-32600, "expected a single JSON-RPC object".to_string()));
        },
    }
    let id = match get(msg, "id") {
        Some(i) => i.copy(),
        None => {
            return Ok(None);
        },
    };
    let method = match str_get(msg, "method") {
        Some(m) => m.to_string(),
        None => String::new(),
    };
    let params = match get(msg, "params") {
        Some(p) => p.copy(),
        None => Json::Null,
    };
    Ok(Some(RpcRequest { id, method, params }))
}

/// The methods the endpoint answers.
#[derive(Debug, Clone, Copy, PartialEq, Eq, Structural)]
pub enum RpcMethod {
    Initialize,
    Ping,
    ToolsList,
    ToolsCall,
}

/// Which method a request calls, or the error for one the endpoint does not have.
pub fn rpc_method(method: &str) -> (r: Result<RpcMethod, RpcError>)
    ensures
        method@ == "initialize"@ <==> r == Ok::<RpcMethod, RpcError>(RpcMethod::Initialize),
        method@ == "ping"@ <==> r == Ok::<RpcMethod, RpcError>(RpcMethod::Ping),
        method@ == "tools/list"@ <==> r == Ok::<RpcMethod, RpcError>(RpcMethod::ToolsList),
        method@ == "tools/call"@ <==> r == Ok::<RpcMethod, RpcError>(RpcMethod::ToolsCall),
        r matches Err(e) ==> e.code == -32601 && e.message@ == "method not found: "@ + method@,
{
    proof {
        reveal_strlit("initialize");
        reveal_strlit("ping");
        reveal_strlit("tools/list");
        reveal_strlit("tools/call");
        assert("initialize"@.len() == 10 && "ping"@.len() == 4);
        assert("tools/list"@.len() == 10 && "tools/call"@.len() == 10);
        assert("initialize"@[0] != "tools/list"@[0] && "initialize"@[0] != "tools/call"@[0]);
        assert("tools/list"@[6] != "tools/call"@[6]);
    }
    if str_eq(method, "initialize") {
        Ok(RpcMethod::Initialize)
    } else if str_eq(method, "ping") {
        Ok(RpcMethod::Ping)
    } else if str_eq(method, "tools/list") {
        Ok(RpcMethod::ToolsList)
    } else if str_eq(method, "tools/call") {
        Ok(RpcMethod::ToolsCall)
    } else {
        let mut m = "method not found: ".to_string();
        m.append(method);
        Err(rpc_error(-32601, m))
    }
}

/// What a `tools/call` asks for, once its arguments are read.
pub enum ToolCall {
    /// `otw_catalog`: the module index, or the endpoints of one module.
    Catalog { module: Option<String> },
    /// `otw_read` or `otw_write`: one call of the REST API, and how to shape its answer.
    Endpoint { method: String, path: String, body: Option<Json>, shape: Shape },
}

/// The methods `otw_write` may use.
pub open spec fn write_method(m: Seq<char>) -> bool {
    m == "POST"@ || m == "PUT"@ || m == "PATCH"@ || m == "DELETE"@
}

/// `otw_write`'s method as given, upper-cased; empty when it gives none.
pub open spec fn write_method_of(args: JsonV) -> Seq<char> {
    match str_member(args, "method"@) {
        Some(m) => ascii_upper(m),
        None => Seq::empty(),
    }
}

/// An `Endpoint` call of `method` on `path`, with this body and the shape `shape_of` reads.
pub open spec fn endpoint_is(c: ToolCall, method: Seq<char>, path: Seq<char>, body: Option<JsonV>, args: JsonV) -> bool {
    match c {
        ToolCall::Endpoint { method: m, path: p, body: b, shape } => {
            &&& m@ == method
            &&& p@ == path
            &&& match b {
                Some(x) => body == Some(jv(x)),
                None => body is None,
            }
            &&& shape_of(args) == Ok::<(Seq<Seq<char>>, Option<u64>), Seq<char>>((shape.pick_view(), shape.head))
        },
        _ => false,
    }
}

/// Read a `tools/call`: which tool, and whether its arguments are what it needs. Every refusal
/// is an invalid-parameters error that says what was wrong.
pub fn tool_call(name: &str, args: &Json) -> (r: Result<ToolCall, RpcError>)
    ensures
        name@ == "otw_catalog"@ ==> (r matches Ok(ToolCall::Catalog { module }) && match module {
            Some(m) => str_member(jv(*args), "module"@) == Some(m@),
            None => str_member(jv(*args), "module"@) is None,
        }),
        name@ == "otw_read"@ ==> match str_member(jv(*args), "path"@) {
            None => r matches Err(e) && e.code == INVALID_PARAMS
                && e.message@ == "otw_read requires a \"path\" string"@,
            Some(p) => match shape_of(jv(*args)) {
                Err(m) => r matches Err(e) && e.code == INVALID_PARAMS && e.message@ == m,
                Ok(_) => r matches Ok(c) && endpoint_is(c, "GET"@, p, None, jv(*args)),
            },
        },
        name@ == "otw_write"@ ==> if !write_method(write_method_of(jv(*args))) {
            r matches Err(e) && e.code == INVALID_PARAMS
                && e.message@ == "method must be POST, PUT, PATCH or DELETE"@
        } else {
            match str_member(jv(*args), "path"@) {
                None => r matches Err(e) && e.code == INVALID_PARAMS
                    && e.message@ == "otw_write requires a \"path\" string"@,
                Some(p) => match shape_of(jv(*args)) {
                    Err(m) => r matches Err(e) && e.code == INVALID_PARAMS && e.message@ == m,
                    Ok(_) => r matches Ok(c) && endpoint_is(
                        c,
                        write_method_of(jv(*args)),
                        p,
                        member(jv(*args), "body"@),
                        jv(*args),
                    ),
                },
            }
        },
        name@ != "otw_catalog"@ && name@ != "otw_read"@ && name@ != "otw_write"@ ==> (r matches Err(e)
            && e.code == INVALID_PARAMS && e.message@ == "unknown tool: "@ + name@),
{
    proof {
        reveal_strlit("otw_catalog");
        reveal_strlit("otw_read");
        reveal_strlit("otw_write");
        assert("otw_catalog"@.len() == 11 && "otw_read"@.len() == 8 && "otw_write"@.len() == 9);
    }
    if str_eq(name, "otw_catalog") {
        let module = match str_get(args, "module") {
            Some(m) => Some(m.to_string()),
            None => None,
        };
        return Ok(ToolCall::Catalog { module });
    }
    if str_eq(name, "otw_read") {
        let path = match str_get(args, "path") {
            Some(p) => p,
            None => {
                return Err(rpc_error(INVALID_PARAMS, "otw_read requires a \"path\" string".to_string()));
            },
        };
        let shape = match shape_from(args) {
            Ok(s) => s,
            Err(m) => {
                return Err(rpc_error(INVALID_PARAMS, m));
            },
        };
        return Ok(ToolCall::Endpoint { method: "GET".to_string(), path: path.to_string(), body: None, shape });
    }
    if str_eq(name, "otw_write") {
        let method = match str_get(args, "method") {
            Some(m) => string_of(upper_vec(&chars_of(m)).as_slice()),
            None => String::new(),
        };
        let m = method.as_str();
        if !(str_eq(m, "POST") || str_eq(m, "PUT") || str_eq(m, "PATCH") || str_eq(m, "DELETE")) {
            return Err(rpc_error(INVALID_PARAMS, "method must be POST, PUT, PATCH or DELETE".to_string()));
        }
        let path = match str_get(args, "path") {
            Some(p) => p,
            None => {
                return Err(rpc_error(INVALID_PARAMS, "otw_write requires a \"path\" string".to_string()));
            },
        };
        let shape = match shape_from(args) {
            Ok(s) => s,
            Err(e) => {
                return Err(rpc_error(INVALID_PARAMS, e));
            },
        };
        let body = match get(args, "body") {
            Some(b) => Some(b.copy()),
            None => None,
        };
        return Ok(ToolCall::Endpoint { method, path: path.to_string(), body, shape });
    }
    let mut m = "unknown tool: ".to_string();
    m.append(name);
    Err(rpc_error(INVALID_PARAMS, m))
}

/// The tools a token is offered: the catalog and reads always, writes only to a token that
/// may write somewhere.
pub fn tool_names(perms: &Perms) -> (v: Vec<&'static str>)
    ensures
        (exists|i: int| 0 <= i < crate::mcp::catalog::module_keys().len() && perms.writes(
            #[trigger] crate::mcp::catalog::module_keys()[i],
        )) ==> v@ == seq!["otw_catalog", "otw_read", "otw_write"],
        !(exists|i: int| 0 <= i < crate::mcp::catalog::module_keys().len() && perms.writes(
            #[trigger] crate::mcp::catalog::module_keys()[i],
        )) ==> v@ == seq!["otw_catalog", "otw_read"],
{
    let mut v: Vec<&'static str> = Vec::new();
    v.push("otw_catalog");
    v.push("otw_read");
    if any_write(perms) {
        v.push("otw_write");
        assert(v@ =~= seq!["otw_catalog", "otw_read", "otw_write"]);
    } else {
        assert(v@ =~= seq!["otw_catalog", "otw_read"]);
    }
    v
}

} // verus!
