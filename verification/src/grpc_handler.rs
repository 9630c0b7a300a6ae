//! The worker's side of the host's event stream: what each message from the host is
//! answered with.
use vstd::prelude::*;
use sha2::Digest;
use crate::config::WorkerStartupArgs;
use crate::http_forwarder::HttpForwarder;
use crate::messages::{
    pairs_view, success, is_success, BindingInfo, Content, FunctionEnvironmentReloadResponse,
    FunctionLoadRequest, FunctionLoadResponse, FunctionMetadataResponse, InvocationRequest,
    InvocationResponse, RpcFunctionMetadata, StreamingMessage, WorkerInitResponse, WorkerMetadata,
    DATA_TYPE_STRING, DATA_TYPE_UNDEFINED, DIRECTION_IN, DIRECTION_OUT,
};
use crate::text::{string_from};

verus! {

/// Version the adapter reports to the host.
pub const ADAPTER_VERSION: &'static str = "0.1.0";
/// Language the adapter reports to the host.
pub const WORKER_LANGUAGE: &'static str = "web-adapter";
/// Name of the single HTTP catch-all function the adapter registers.
pub const FUNCTION_NAME: &'static str = "WebAdapterHttpTrigger";
/// Why the worker stops when the host tells it to.
pub const TERMINATED_MESSAGE: &'static str = "worker terminated by host";

// ---------------------------------------------------------------------------
// Calls into sha2, hex and serde_json
// ---------------------------------------------------------------------------

/// The SHA-256 digest of `data`.
pub uninterp spec fn sha256(data: Seq<u8>) -> Seq<u8>;

/// `sha2::Sha256`: hashes `data` and returns the 32-byte digest, named by `sha256`.
#[verifier::external_body]
fn sha256_digest(data: &[u8]) -> (r: Vec<u8>)
    ensures
        r@ == sha256(data@),
        r@.len() == 32,
{
    let mut hasher = sha2::Sha256::new();
    hasher.update(data);
    hasher.finalize().to_vec()
}

/// The lower-case hexadecimal digit of `d` (below 16).
pub open spec fn hex_digit(d: nat) -> char {
    if d < 10 {
        (('0' as nat) + d) as char
    } else {
        (('a' as nat) + d - 10) as char
    }
}

/// Two lower-case hexadecimal digits per byte, high half first.
pub open spec fn hex_lower(data: Seq<u8>) -> Seq<char>
    decreases data.len(),
{
    if data.len() == 0 {
        Seq::empty()
    } else {
        hex_lower(data.drop_last()) + seq![
            hex_digit((data.last() / 16) as nat),
            hex_digit((data.last() % 16) as nat),
        ]
    }
}

/// Two digits per byte.
pub proof fn lemma_hex_lower_len(data: Seq<u8>)
    ensures
        hex_lower(data).len() == 2 * data.len(),
    decreases data.len(),
{
    if data.len() > 0 {
        lemma_hex_lower_len(data.drop_last());
    }
}

/// `hex::encode`: each byte as two lower-case hexadecimal digits, high half first.
#[verifier::external_body]
fn hex_encode(data: &[u8]) -> (r: String)
    ensures
        r@ == hex_lower(data@),
{
    hex::encode(data)
}

/// The text `serde_json` writes for the JSON object whose members are the string
/// members `strings` and the string-array members `lists`.
pub uninterp spec fn json_object(
    strings: Seq<(Seq<char>, Seq<char>)>,
    lists: Seq<(Seq<char>, Seq<Seq<char>>)>,
) -> Seq<char>;

/// The texts of a list of named string lists.
pub open spec fn lists_view(v: Seq<(String, Vec<String>)>) -> Seq<(Seq<char>, Seq<Seq<char>>)> {
    v.map_values(|p: (String, Vec<String>)| (p.0@, p.1@.map_values(|s: String| s@)))
}

/// Builds a `serde_json::Map` from the members, wraps it in `serde_json::Value::Object`
/// and writes it with `to_string`; the text is named by `json_object`.
#[verifier::external_body]
fn json_object_text(strings: &Vec<(String, String)>, lists: &Vec<(String, Vec<String>)>) -> (r: String)
    ensures
        r@ == json_object(pairs_view(strings@), lists_view(lists@)),
{
    let mut map = serde_json::Map::new();
    for (k, v) in strings {
        map.insert(k.clone(), serde_json::Value::String(v.clone()));
    }
    for (k, vs) in lists {
        let items = vs.iter().map(|s| serde_json::Value::String(s.clone())).collect();
        map.insert(k.clone(), serde_json::Value::Array(items));
    }
    serde_json::Value::Object(map).to_string()
}

// ---------------------------------------------------------------------------
// Identity of the registered function
// ---------------------------------------------------------------------------

/// The id of the catch-all function: the first 16 bytes of the SHA-256 digest of its
/// name, in hexadecimal.
pub open spec fn function_id_text() -> Seq<char> {
    hex_lower(sha256(vstd::utf8::encode_utf8(FUNCTION_NAME@)).take(16))
}

/// The id made of a digest: its first 16 bytes in lower-case hexadecimal.
pub fn function_id_of_digest(digest: &[u8]) -> (r: String)
    requires
        digest@.len() >= 16,
    ensures
        r@ == hex_lower(digest@.take(16)),
        r@.len() == 32,
{
    let mut first: Vec<u8> = Vec::new();
    let mut i: usize = 0;
    while i < 16
        invariant
            0 <= i <= 16,
            digest@.len() >= 16,
            first@ == digest@.take(i as int),
        decreases 16 - i,
    {
        first.push(digest[i]);
        i += 1;
        assert(first@ =~= digest@.take(i as int));
    }
    proof {
        lemma_hex_lower_len(first@);
    }
    hex_encode(first.as_slice())
}

/// A deterministic id for the catch-all function.
pub fn function_id() -> (r: String)
    ensures
        r@ == function_id_text(),
        r@.len() == 32,
{
    let digest = sha256_digest(FUNCTION_NAME.as_bytes());
    function_id_of_digest(digest.as_slice())
}

// ---------------------------------------------------------------------------
// Answers to the host
// ---------------------------------------------------------------------------

/// Facts about the running worker that the answers report.
#[derive(Debug)]
pub struct HostFacts {
    /// The processor architecture the worker was built for.
    pub arch: String,
    /// The file of the worker's program.
    pub script_file: String,
}

/// Two texts as a pair.
fn pair(k: &str, v: &str) -> (r: (String, String))
    ensures
        r.0@ == k@,
        r.1@ == v@,
{
    (string_from(k), string_from(v))
}

/// The capabilities the worker reports when it starts.
pub open spec fn worker_capabilities() -> Seq<(Seq<char>, Seq<char>)> {
    seq![
        ("HandlesWorkerTerminateMessage"@, "true"@),
        ("SupportsLoadResponseCollection"@, "true"@),
        ("WorkerStatus"@, "true"@),
    ]
}

/// `m` answers the start request `request_id`, reporting the capabilities, the version
/// and the architecture `arch`.
pub open spec fn is_init_reply(m: StreamingMessage, request_id: Seq<char>, arch: Seq<char>) -> bool {
    &&& m.request_id@ == request_id
    &&& m.content matches Some(Content::WorkerInitResponse(r))
    &&& r.worker_version@ == ADAPTER_VERSION@
    &&& pairs_view(r.capabilities@) == worker_capabilities()
    &&& is_success(r.result)
    &&& r.worker_metadata matches Some(md)
    &&& md.runtime_name@ == WORKER_LANGUAGE@
    &&& md.runtime_version@ == ADAPTER_VERSION@
    &&& md.worker_version@ == ADAPTER_VERSION@
    &&& md.worker_bitness@ == arch
    &&& md.custom_properties@.len() == 0
}

/// Report the worker's capabilities.
pub fn init_reply(request_id: &str, arch: &str) -> (m: StreamingMessage)
    ensures
        is_init_reply(m, request_id@, arch@),
{
    let mut capabilities: Vec<(String, String)> = Vec::new();
    capabilities.push(pair("HandlesWorkerTerminateMessage", "true"));
    capabilities.push(pair("SupportsLoadResponseCollection", "true"));
    capabilities.push(pair("WorkerStatus", "true"));
    assert(pairs_view(capabilities@) =~= worker_capabilities());
    StreamingMessage {
        request_id: string_from(request_id),
        content: Some(
            Content::WorkerInitResponse(
                WorkerInitResponse {
                    worker_version: string_from(ADAPTER_VERSION),
                    capabilities,
                    result: success(),
                    worker_metadata: Some(
                        WorkerMetadata {
                            runtime_name: string_from(WORKER_LANGUAGE),
                            runtime_version: string_from(ADAPTER_VERSION),
                            worker_version: string_from(ADAPTER_VERSION),
                            worker_bitness: string_from(arch),
                            custom_properties: Vec::new(),
                        },
                    ),
                },
            ),
        ),
    }
}

/// The members of the JSON description of the trigger binding.
pub open spec fn trigger_json_strings() -> Seq<(Seq<char>, Seq<char>)> {
    seq![
        ("name"@, "req"@),
        ("type"@, "httpTrigger"@),
        ("direction"@, "in"@),
        ("authLevel"@, "anonymous"@),
        ("route"@, "{*path}"@),
    ]
}

/// The methods the catch-all function accepts.
pub open spec fn trigger_methods() -> Seq<Seq<char>> {
    seq!["get"@, "post"@, "put"@, "delete"@, "patch"@, "head"@, "options"@]
}

/// The members of the JSON description of the output binding.
pub open spec fn output_json_strings() -> Seq<(Seq<char>, Seq<char>)> {
    seq![("name"@, "$return"@), ("type"@, "http"@), ("direction"@, "out"@)]
}

/// The JSON descriptions of the two bindings, as the host reads them.
pub open spec fn raw_bindings_text() -> Seq<Seq<char>> {
    seq![
        json_object(trigger_json_strings(), seq![("methods"@, trigger_methods())]),
        json_object(output_json_strings(), Seq::empty()),
    ]
}

/// The properties of the trigger binding.
pub open spec fn trigger_properties() -> Seq<(Seq<char>, Seq<char>)> {
    seq![("authLevel"@, "anonymous"@), ("route"@, "{*path}"@)]
}

/// `b` is the anonymous HTTP trigger binding for every route.
pub open spec fn is_trigger_binding(b: BindingInfo) -> bool {
    &&& b.binding_type@ == "httpTrigger"@
    &&& b.direction == DIRECTION_IN
    &&& b.data_type == DATA_TYPE_STRING
    &&& pairs_view(b.properties@) == trigger_properties()
}

/// `b` is the HTTP output binding.
pub open spec fn is_output_binding(b: BindingInfo) -> bool {
    &&& b.binding_type@ == "http"@
    &&& b.direction == DIRECTION_OUT
    &&& b.data_type == DATA_TYPE_UNDEFINED
    &&& b.properties@.len() == 0
}

/// `f` describes the catch-all function named `name` with id `id`, found in `directory`
/// and run from `script_file`.
pub open spec fn is_catch_all_function(
    f: RpcFunctionMetadata,
    name: Seq<char>,
    id: Seq<char>,
    directory: Seq<char>,
    script_file: Seq<char>,
) -> bool {
    &&& f.name@ == name
    &&& f.directory@ == directory
    &&& f.script_file@ == script_file
    &&& f.entry_point@ == name
    &&& f.function_id@ == id
    &&& !f.is_proxy
    &&& f.bindings@.len() == 2
    &&& f.bindings@[0].0@ == "req"@
    &&& is_trigger_binding(f.bindings@[0].1)
    &&& f.bindings@[1].0@ == "$return"@
    &&& is_output_binding(f.bindings@[1].1)
    &&& f.language@ == WORKER_LANGUAGE@
    &&& f.raw_bindings@.map_values(|s: String| s@) == raw_bindings_text()
    &&& !f.managed_dependency_enabled
}

/// `m` answers the function listing request `request_id` with the catch-all function.
pub open spec fn is_metadata_reply(
    m: StreamingMessage,
    request_id: Seq<char>,
    name: Seq<char>,
    id: Seq<char>,
    directory: Seq<char>,
    script_file: Seq<char>,
) -> bool {
    &&& m.request_id@ == request_id
    &&& m.content matches Some(Content::FunctionMetadataResponse(r))
    &&& r.function_metadata_results@.len() == 1
    &&& is_catch_all_function(r.function_metadata_results@[0], name, id, directory, script_file)
    &&& is_success(r.result)
    &&& !r.use_default_metadata_indexing
}

/// The JSON descriptions of the two bindings.
fn raw_bindings() -> (r: Vec<String>)
    ensures
        r@.map_values(|s: String| s@) == raw_bindings_text(),
{
    let mut strings: Vec<(String, String)> = Vec::new();
    strings.push(pair("name", "req"));
    strings.push(pair("type", "httpTrigger"));
    strings.push(pair("direction", "in"));
    strings.push(pair("authLevel", "anonymous"));
    strings.push(pair("route", "{*path}"));
    assert(pairs_view(strings@) =~= trigger_json_strings());
    let mut methods: Vec<String> = Vec::new();
    methods.push(string_from("get"));
    methods.push(string_from("post"));
    methods.push(string_from("put"));
    methods.push(string_from("delete"));
    methods.push(string_from("patch"));
    methods.push(string_from("head"));
    methods.push(string_from("options"));
    assert(methods@.map_values(|s: String| s@) =~= trigger_methods());
    let mut lists: Vec<(String, Vec<String>)> = Vec::new();
    lists.push((string_from("methods"), methods));
    assert(lists_view(lists@) =~= seq![("methods"@, trigger_methods())]);
    let trigger = json_object_text(&strings, &lists);
    let mut out_strings: Vec<(String, String)> = Vec::new();
    out_strings.push(pair("name", "$return"));
    out_strings.push(pair("type", "http"));
    out_strings.push(pair("direction", "out"));
    assert(pairs_view(out_strings@) =~= output_json_strings());
    let no_lists: Vec<(String, Vec<String>)> = Vec::new();
    assert(lists_view(no_lists@) =~= Seq::<(Seq<char>, Seq<Seq<char>>)>::empty());
    let output = json_object_text(&out_strings, &no_lists);
    let mut r: Vec<String> = Vec::new();
    r.push(trigger);
    r.push(output);
    assert(r@.map_values(|s: String| s@) =~= raw_bindings_text());
    r
}

/// Register the HTTP catch-all function.
pub fn metadata_reply(
    request_id: &str,
    function_name: &str,
    function_id: &str,
    directory: &str,
    script_file: &str,
) -> (m: StreamingMessage)
    ensures
        is_metadata_reply(m, request_id@, function_name@, function_id@, directory@, script_file@),
{
    let mut props: Vec<(String, String)> = Vec::new();
    props.push(pair("authLevel", "anonymous"));
    props.push(pair("route", "{*path}"));
    assert(pairs_view(props@) =~= trigger_properties());
    let trigger = BindingInfo {
        binding_type: string_from("httpTrigger"),
        direction: DIRECTION_IN,
        data_type: DATA_TYPE_STRING,
        properties: props,
    };
    let output = BindingInfo {
        binding_type: string_from("http"),
        direction: DIRECTION_OUT,
        data_type: DATA_TYPE_UNDEFINED,
        properties: Vec::new(),
    };
    let mut bindings: Vec<(String, BindingInfo)> = Vec::new();
    bindings.push((string_from("req"), trigger));
    bindings.push((string_from("$return"), output));
    let f = RpcFunctionMetadata {
        name: string_from(function_name),
        directory: string_from(directory),
        script_file: string_from(script_file),
        entry_point: string_from(function_name),
        function_id: string_from(function_id),
        is_proxy: false,
        bindings,
        language: string_from(WORKER_LANGUAGE),
        raw_bindings: raw_bindings(),
        managed_dependency_enabled: false,
    };
    let mut results: Vec<RpcFunctionMetadata> = Vec::new();
    results.push(f);
    StreamingMessage {
        request_id: string_from(request_id),
        content: Some(
            Content::FunctionMetadataResponse(
                FunctionMetadataResponse {
                    function_metadata_results: results,
                    result: success(),
                    use_default_metadata_indexing: false,
                },
            ),
        ),
    }
}

/// `r` acknowledges loading the function `function_id`.
pub open spec fn is_load_response(r: FunctionLoadResponse, function_id: Seq<char>) -> bool {
    &&& r.function_id@ == function_id
    &&& is_success(r.result)
    &&& !r.is_dependency_downloaded
}

/// Acknowledge loading a function.
pub fn load_response(function_id: &str) -> (r: FunctionLoadResponse)
    ensures
        is_load_response(r, function_id@),
{
    FunctionLoadResponse {
        function_id: string_from(function_id),
        result: success(),
        is_dependency_downloaded: false,
    }
}

/// `m` acknowledges, under `request_id`, loading each of the requested functions in turn.
pub open spec fn is_load_collection_reply(
    m: StreamingMessage,
    request_id: Seq<char>,
    requests: Seq<FunctionLoadRequest>,
) -> bool {
    &&& m.request_id@ == request_id
    &&& m.content matches Some(Content::FunctionLoadResponseCollection(rs))
    &&& rs@.len() == requests.len()
    &&& forall|i: int| 0 <= i < requests.len() ==> is_load_response(#[trigger] rs@[i], requests[i].function_id@)
}

/// Acknowledge loading each function of a batch.
pub fn load_collection_reply(request_id: &str, requests: &Vec<FunctionLoadRequest>) -> (m: StreamingMessage)
    ensures
        is_load_collection_reply(m, request_id@, requests@),
{
    let mut responses: Vec<FunctionLoadResponse> = Vec::new();
    let mut i: usize = 0;
    while i < requests.len()
        invariant
            0 <= i <= requests.len(),
            responses@.len() == i,
            forall|j: int| 0 <= j < i ==> is_load_response(#[trigger] responses@[j], requests@[j].function_id@),
        decreases requests.len() - i,
    {
        responses.push(load_response(requests[i].function_id.as_str()));
        i += 1;
    }
    StreamingMessage {
        request_id: string_from(request_id),
        content: Some(Content::FunctionLoadResponseCollection(responses)),
    }
}

/// `m` answers the environment reload `request_id` with success and nothing more.
pub open spec fn is_reload_reply(m: StreamingMessage, request_id: Seq<char>) -> bool {
    &&& m.request_id@ == request_id
    &&& m.content matches Some(Content::FunctionEnvironmentReloadResponse(r))
    &&& r.worker_metadata is None
    &&& r.capabilities@.len() == 0
    &&& is_success(r.result)
    &&& r.capabilities_update_strategy == 0
}

/// Acknowledge an environment reload.
pub fn reload_reply(request_id: &str) -> (m: StreamingMessage)
    ensures
        is_reload_reply(m, request_id@),
{
    StreamingMessage {
        request_id: string_from(request_id),
        content: Some(
            Content::FunctionEnvironmentReloadResponse(
                FunctionEnvironmentReloadResponse {
                    worker_metadata: None,
                    capabilities: Vec::new(),
                    result: success(),
                    capabilities_update_strategy: 0,
                },
            ),
        ),
    }
}

/// `m` carries `content` under `request_id`.
pub open spec fn is_plain_reply(m: StreamingMessage, request_id: Seq<char>, content: Content) -> bool {
    m.request_id@ == request_id && m.content == Some(content)
}

/// Report the worker healthy.
pub fn status_reply(request_id: &str) -> (m: StreamingMessage)
    ensures
        is_plain_reply(m, request_id@, Content::WorkerStatusResponse),
{
    StreamingMessage { request_id: string_from(request_id), content: Some(Content::WorkerStatusResponse) }
}

/// Echo a heartbeat.
pub fn heartbeat_reply(request_id: &str) -> (m: StreamingMessage)
    ensures
        is_plain_reply(m, request_id@, Content::WorkerHeartbeat),
{
    StreamingMessage { request_id: string_from(request_id), content: Some(Content::WorkerHeartbeat) }
}

/// Send an invocation's response back under its request id.
pub fn invocation_reply(request_id: String, response: InvocationResponse) -> (m: StreamingMessage)
    ensures
        m.request_id == request_id,
        m.content == Some(Content::InvocationResponse(response)),
{
    StreamingMessage { request_id, content: Some(Content::InvocationResponse(response)) }
}

// ---------------------------------------------------------------------------
// The handler
// ---------------------------------------------------------------------------

/// The first message on the stream of a worker started with `args`.
pub fn start_stream_message(args: &WorkerStartupArgs) -> (m: StreamingMessage)
    ensures
        m.request_id@ == args.request_id@,
        m.content matches Some(Content::StartStream(w)) && w@ == args.worker_id@,
{
    StreamingMessage {
        request_id: string_from(args.request_id.as_str()),
        content: Some(Content::StartStream(string_from(args.worker_id.as_str()))),
    }
}

/// What the worker does about one message from the host.
#[derive(Debug)]
pub enum HandlerAction {
    /// Send this message to the host.
    Send(StreamingMessage),
    /// Forward the invocation to the web application and send the response back under
    /// the request id.
    Invoke { request_id: String, request: InvocationRequest },
    /// Set these environment variables, then send the reply.
    ReloadEnvironment { variables: Vec<(String, String)>, reply: StreamingMessage },
    /// Stop: the host terminates the worker.
    Terminate,
    /// Nothing to do.
    Ignore,
}

/// The gRPC message handler that bridges the Azure Functions Host and the user's web
/// application.
#[derive(Debug)]
pub struct GrpcHandler {
    pub args: WorkerStartupArgs,
    pub forwarder: HttpForwarder,
    /// Registered function metadata (a single HTTP catch-all).
    pub function_id: String,
    pub function_name: String,
}

impl GrpcHandler {
    /// A handler for the worker started with `args`, forwarding with `forwarder`.
    pub fn new(args: WorkerStartupArgs, forwarder: HttpForwarder) -> (r: Self)
        ensures
            r.args == args,
            r.forwarder == forwarder,
            r.function_name@ == FUNCTION_NAME@,
            r.function_id@ == function_id_text(),
            r.function_id@.len() == 32,
    {
        GrpcHandler { args, forwarder, function_id: function_id(), function_name: string_from(FUNCTION_NAME) }
    }

    /// The first message on the stream: it names the worker.
    pub fn start_stream(&self) -> (m: StreamingMessage)
        ensures
            m.request_id@ == self.args.request_id@,
            m.content matches Some(Content::StartStream(w)) && w@ == self.args.worker_id@,
    {
        start_stream_message(&self.args)
    }

    /// `a` is what the worker does about `msg`.
    pub open spec fn handles(&self, msg: StreamingMessage, host: HostFacts, a: HandlerAction) -> bool {
        let rid = msg.request_id@;
        match msg.content {
            Some(Content::WorkerInitRequest(_)) => a matches HandlerAction::Send(m) && is_init_reply(
                m,
                rid,
                host.arch@,
            ),
            Some(Content::FunctionsMetadataRequest(req)) => a matches HandlerAction::Send(m)
                && is_metadata_reply(
                m,
                rid,
                self.function_name@,
                self.function_id@,
                req.function_app_directory@,
                host.script_file@,
            ),
            Some(Content::FunctionLoadRequest(req)) => a matches HandlerAction::Send(m) && m.request_id@
                == rid && (m.content matches Some(Content::FunctionLoadResponse(r)) && is_load_response(
                r,
                req.function_id@,
            )),
            Some(Content::FunctionLoadRequestCollection(reqs)) => a matches HandlerAction::Send(m)
                && is_load_collection_reply(m, rid, reqs@),
            Some(Content::InvocationRequest(req)) => a matches HandlerAction::Invoke {
                request_id,
                request,
            } && request_id == msg.request_id && request == req,
            Some(Content::WorkerStatusRequest) => a matches HandlerAction::Send(m) && is_plain_reply(
                m,
                rid,
                Content::WorkerStatusResponse,
            ),
            Some(Content::WorkerHeartbeat) => a matches HandlerAction::Send(m) && is_plain_reply(
                m,
                rid,
                Content::WorkerHeartbeat,
            ),
            Some(Content::FunctionEnvironmentReloadRequest(req)) => a matches HandlerAction::ReloadEnvironment {
                variables,
                reply,
            } && variables == req.environment_variables && is_reload_reply(reply, rid),
            Some(Content::WorkerTerminate) => a is Terminate,
            _ => a is Ignore,
        }
    }

    /// Dispatch an incoming message from the host.
    pub fn handle_message(&self, msg: StreamingMessage, host: &HostFacts) -> (a: HandlerAction)
        ensures
            self.handles(msg, *host, a),
    {
        let request_id = msg.request_id;
        match msg.content {
            Some(Content::WorkerInitRequest(_)) => HandlerAction::Send(
                init_reply(request_id.as_str(), host.arch.as_str()),
            ),
            Some(Content::FunctionsMetadataRequest(req)) => HandlerAction::Send(
                metadata_reply(
                    request_id.as_str(),
                    self.function_name.as_str(),
                    self.function_id.as_str(),
                    req.function_app_directory.as_str(),
                    host.script_file.as_str(),
                ),
            ),
            Some(Content::FunctionLoadRequest(req)) => HandlerAction::Send(
                StreamingMessage {
                    request_id: string_from(request_id.as_str()),
                    content: Some(Content::FunctionLoadResponse(load_response(req.function_id.as_str()))),
                },
            ),
            Some(Content::FunctionLoadRequestCollection(reqs)) => HandlerAction::Send(
                load_collection_reply(request_id.as_str(), &reqs),
            ),
            Some(Content::InvocationRequest(req)) => HandlerAction::Invoke { request_id, request: req },
            Some(Content::WorkerStatusRequest) => HandlerAction::Send(status_reply(request_id.as_str())),
            Some(Content::WorkerHeartbeat) => HandlerAction::Send(heartbeat_reply(request_id.as_str())),
            Some(Content::FunctionEnvironmentReloadRequest(req)) => HandlerAction::ReloadEnvironment {
                variables: req.environment_variables,
                reply: reload_reply(request_id.as_str()),
            },
            Some(Content::WorkerTerminate) => HandlerAction::Terminate,
            _ => HandlerAction::Ignore,
        }
    }
}

/// Every message the worker sends back answers under the request id of the message it
/// answers, and an invocation is passed on under that id too.
pub proof fn law_replies_keep_request_id(
    handler: GrpcHandler,
    msg: StreamingMessage,
    host: HostFacts,
    a: HandlerAction,
)
    requires
        handler.handles(msg, host, a),
    ensures
        a matches HandlerAction::Send(m) ==> m.request_id@ == msg.request_id@,
        a matches HandlerAction::ReloadEnvironment { reply, .. } ==> reply.request_id@ == msg.request_id@,
        a matches HandlerAction::Invoke { request_id, .. } ==> request_id@ == msg.request_id@,
{
}

/// The function listing is answered, under its request id, by exactly one function:
/// the catch-all under the handler's name and id, found in the directory the host
/// named, with the anonymous HTTP trigger binding `req` and the HTTP output `$return`.
pub proof fn law_metadata_registers_catch_all(
    handler: GrpcHandler,
    msg: StreamingMessage,
    host: HostFacts,
    a: HandlerAction,
)
    requires
        handler.handles(msg, host, a),
        msg.content matches Some(Content::FunctionsMetadataRequest(_)),
    ensures
        match (msg.content, a) {
            (Some(Content::FunctionsMetadataRequest(req)), HandlerAction::Send(m)) => {
                &&& m.request_id@ == msg.request_id@
                &&& m.content matches Some(Content::FunctionMetadataResponse(r))
                &&& is_success(r.result)
                &&& r.function_metadata_results@.len() == 1
                &&& r.function_metadata_results@[0].name@ == handler.function_name@
                &&& r.function_metadata_results@[0].entry_point@ == handler.function_name@
                &&& r.function_metadata_results@[0].function_id@ == handler.function_id@
                &&& r.function_metadata_results@[0].directory@ == req.function_app_directory@
                &&& r.function_metadata_results@[0].language@ == WORKER_LANGUAGE@
                &&& r.function_metadata_results@[0].bindings@.len() == 2
                &&& r.function_metadata_results@[0].bindings@[0].0@ == "req"@
                &&& is_trigger_binding(r.function_metadata_results@[0].bindings@[0].1)
                &&& r.function_metadata_results@[0].bindings@[1].0@ == "$return"@
                &&& is_output_binding(r.function_metadata_results@[0].bindings@[1].1)
            },
            _ => false,
        },
{
}

} // verus!
