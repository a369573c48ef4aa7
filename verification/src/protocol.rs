//! Plain values exchanged with plugins: hook parameters and results.
use vstd::prelude::*;
use crate::json::Json;

verus! {

/// A JSON-RPC 2.0 request sent to a plugin subprocess.
#[derive(Debug)]
pub struct JsonRpcRequest {
    pub jsonrpc: String,
    pub method: String,
    pub params: Option<Json>,
    pub id: u64,
}

/// A JSON-RPC 2.0 error object.
#[derive(Debug)]
pub struct JsonRpcError {
    pub code: i64,
    pub message: String,
    pub data: Option<Json>,
}

/// A JSON-RPC 2.0 response received from a plugin subprocess.
#[derive(Debug)]
pub struct JsonRpcResponse {
    pub jsonrpc: String,
    pub result: Option<Json>,
    pub error: Option<JsonRpcError>,
    pub id: u64,
}

impl JsonRpcRequest {
    /// Create a new JSON-RPC 2.0 request.
    pub fn new(method: &str, params: Option<Json>, id: u64) -> (r: JsonRpcRequest)
        ensures
            r.jsonrpc@ == seq!['2', '.', '0'],
            r.method@ == method@,
            r.params == params,
            r.id == id,
    {
        let v = "2.0";
        proof {
            reveal_strlit("2.0");
        }
        JsonRpcRequest { jsonrpc: v.to_string(), method: method.to_string(), params, id }
    }
}

impl JsonRpcResponse {
    /// Whether this response carries an error.
    pub fn is_error(&self) -> (r: bool)
        ensures
            r == self.error.is_some(),
    {
        self.error.is_some()
    }

    /// The error message, if the response carries an error.
    pub fn error_message(&self) -> (r: Option<&str>)
        ensures
            match self.error {
                Some(e) => r is Some && r.unwrap()@ == e.message@,
                None => r is None,
            },
    {
        match &self.error {
            Some(e) => Some(e.message.as_str()),
            None => None,
        }
    }
}

/// Why a plugin call did not produce a result.
#[derive(Debug, Clone)]
pub enum RpcFailure {
    /// The response answered another request.
    IdMismatch { expected: u64, got: u64 },
    /// The plugin answered with a JSON-RPC error.
    PluginError { code: i64, message: String },
}

/// What a plugin call yields, given the response read back and the id of the request
/// that was sent: a response to another request is refused, an error response becomes
/// a failure, and otherwise the (possibly absent) result is handed back.
pub fn check_response(response: JsonRpcResponse, expected_id: u64) -> (r: Result<Option<Json>, RpcFailure>)
    ensures
        response.id != expected_id ==> r == Err::<Option<Json>, RpcFailure>(
            RpcFailure::IdMismatch { expected: expected_id, got: response.id },
        ),
        response.id == expected_id && response.error is Some ==> (match r {
            Err(RpcFailure::PluginError { code, message }) => code == response.error.unwrap().code
                && message@ == response.error.unwrap().message@,
            _ => false,
        }),
        response.id == expected_id && response.error is None ==> r == Ok::<Option<Json>, RpcFailure>(
            response.result,
        ),
{
    if response.id != expected_id {
        return Err(RpcFailure::IdMismatch { expected: expected_id, got: response.id });
    }
    match response.error {
        Some(e) => Err(RpcFailure::PluginError { code: e.code, message: e.message }),
        None => Ok(response.result),
    }
}

/// Plugin-facing view of a page's parsed content.
#[derive(Debug)]
pub struct PageData {
    /// Content-relative path (e.g. "blog/hello.md").
    pub path: String,
    /// Page title from frontmatter.
    pub title: Option<String>,
    /// Content type from frontmatter (e.g. "Blog Post").
    pub content_type: Option<String>,
    /// Rendered HTML body.
    pub html: String,
    /// Raw Markdown body.
    pub raw_body: String,
    /// All frontmatter fields, by key.
    pub frontmatter: Vec<(String, Json)>,
}

/// Parameters sent with the `on_content_parsed` call.
#[derive(Debug)]
pub struct ContentParsedParams {
    pub page: PageData,
}

/// Result returned from `on_content_parsed`.
#[derive(Debug)]
pub struct ContentParsedResult {
    pub page: PageData,
}

/// Parameters sent with the `on_page_render` call.
#[derive(Debug)]
pub struct PageRenderParams {
    pub page: PageData,
    pub extra_vars: Vec<(String, Json)>,
}

/// Result returned from `on_page_render`.
#[derive(Debug)]
pub struct PageRenderResult {
    pub page: PageData,
    pub extra_vars: Vec<(String, Json)>,
}

/// Applies what a plugin answered to `on_content_parsed`: a returned page replaces the
/// current one; no result leaves it as it was.
pub fn apply_content_parsed(page: &mut PageData, result: Option<ContentParsedResult>)
    ensures
        match result {
            Some(m) => *final(page) == m.page,
            None => *final(page) == *old(page),
        },
{
    if let Some(m) = result {
        *page = m.page;
    }
}

/// Applies what a plugin answered to `on_page_render`: a returned page and variable set
/// replace the current ones; no result leaves both as they were.
pub fn apply_page_render(
    page: &mut PageData,
    extra_vars: &mut Vec<(String, Json)>,
    result: Option<PageRenderResult>,
)
    ensures
        match result {
            Some(m) => *final(page) == m.page && *final(extra_vars) == m.extra_vars,
            None => *final(page) == *old(page) && *final(extra_vars) == *old(extra_vars),
        },
{
    if let Some(m) = result {
        *page = m.page;
        *extra_vars = m.extra_vars;
    }
}

/// Parameters sent with the `on_validation_complete` call.
#[derive(Debug, Clone)]
pub struct ValidationParams {
    pub conforms: bool,
    pub violations: usize,
}

/// Parameters sent with the `on_file_changed` call.
#[derive(Debug, Clone)]
pub struct FileChangedParams {
    pub changed_path: String,
}

/// The result of server-side rendering a web component.
#[derive(Clone, Debug)]
pub struct SsrResult {
    /// The rendered inner HTML (shadow DOM content).
    pub html: String,
    /// Whether the component uses a shadow root.
    pub has_shadow_root: bool,
}

/// JSON-RPC method name of the init hook.
pub const METHOD_INIT: &'static str = "on_init";
/// JSON-RPC method name of the build-start hook.
pub const METHOD_BUILD_START: &'static str = "on_build_start";
/// JSON-RPC method name of the content-parsed hook.
pub const METHOD_CONTENT_PARSED: &'static str = "on_content_parsed";
/// JSON-RPC method name of the graph-updated hook.
pub const METHOD_GRAPH_UPDATED: &'static str = "on_graph_updated";
/// JSON-RPC method name of the validation-complete hook.
pub const METHOD_VALIDATION_COMPLETE: &'static str = "on_validation_complete";
/// JSON-RPC method name of the page-render hook.
pub const METHOD_PAGE_RENDER: &'static str = "on_page_render";
/// JSON-RPC method name of the build-complete hook.
pub const METHOD_BUILD_COMPLETE: &'static str = "on_build_complete";
/// JSON-RPC method name of the file-changed hook.
pub const METHOD_FILE_CHANGED: &'static str = "on_file_changed";
/// JSON-RPC method that asks a plugin for its name.
pub const METHOD_NAME: &'static str = "name";
/// JSON-RPC method that shuts a plugin down.
pub const METHOD_SHUTDOWN: &'static str = "shutdown";

} // verus!
