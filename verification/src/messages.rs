//! The messages exchanged with the Azure Functions host, as plain data.
//!
//! Each type has a view made of sequences, on which the contracts of the builders are
//! stated.
use vstd::prelude::*;

verus! {

/// `StatusResult.status` of a failed operation.
pub const STATUS_FAILURE: i32 = 0;
/// `StatusResult.status` of a successful operation.
pub const STATUS_SUCCESS: i32 = 1;

/// The texts of a list of string pairs.
pub open spec fn pairs_view(v: Seq<(String, String)>) -> Seq<(Seq<char>, Seq<char>)> {
    v.map_values(|p: (String, String)| (p.0@, p.1@))
}

/// The texts of a list of pairs whose second part may be missing.
pub open spec fn nullable_pairs_view(v: Seq<(String, Option<String>)>) -> Seq<(Seq<char>, Option<Seq<char>>)> {
    v.map_values(|p: (String, Option<String>)| (p.0@, match p.1 { Some(s) => Some(s@), None => None }))
}

/// Outcome of an operation reported to the host.
#[derive(Debug)]
pub struct StatusResult {
    pub status: i32,
    pub result: String,
}

/// View of a [`StatusResult`].
pub struct StatusResultModel {
    pub status: i32,
    pub result: Seq<char>,
}

impl View for StatusResult {
    type V = StatusResultModel;

    open spec fn view(&self) -> StatusResultModel {
        StatusResultModel { status: self.status, result: self.result@ }
    }
}

/// A scalar value carried in an HTTP body.
#[derive(Debug)]
pub enum BodyData {
    String(String),
    Json(String),
    Bytes(Vec<u8>),
    Stream(Vec<u8>),
    Int(i64),
    /// Any other kind of value (numbers with fractions, collections, nested messages).
    Other,
}

/// View of a [`BodyData`].
pub enum BodyModel {
    String(Seq<char>),
    Json(Seq<char>),
    Bytes(Seq<u8>),
    Stream(Seq<u8>),
    Int(i64),
    Other,
}

impl View for BodyData {
    type V = BodyModel;

    open spec fn view(&self) -> BodyModel {
        match self {
            BodyData::String(s) => BodyModel::String(s@),
            BodyData::Json(s) => BodyModel::Json(s@),
            BodyData::Bytes(b) => BodyModel::Bytes(b@),
            BodyData::Stream(b) => BodyModel::Stream(b@),
            BodyData::Int(i) => BodyModel::Int(*i),
            BodyData::Other => BodyModel::Other,
        }
    }
}

/// An HTTP request or response as the host describes it.
#[derive(Debug)]
pub struct RpcHttp {
    pub method: String,
    pub url: String,
    pub headers: Vec<(String, String)>,
    pub nullable_headers: Vec<(String, Option<String>)>,
    pub body: Option<BodyData>,
    pub status_code: String,
}

/// View of an [`RpcHttp`].
pub struct RpcHttpModel {
    pub method: Seq<char>,
    pub url: Seq<char>,
    pub headers: Seq<(Seq<char>, Seq<char>)>,
    pub nullable_headers: Seq<(Seq<char>, Option<Seq<char>>)>,
    pub body: Option<BodyModel>,
    pub status_code: Seq<char>,
}

impl View for RpcHttp {
    type V = RpcHttpModel;

    open spec fn view(&self) -> RpcHttpModel {
        RpcHttpModel {
            method: self.method@,
            url: self.url@,
            headers: pairs_view(self.headers@),
            nullable_headers: nullable_pairs_view(self.nullable_headers@),
            body: match self.body {
                Some(b) => Some(b@),
                None => None,
            },
            status_code: self.status_code@,
        }
    }
}

/// A value bound to a function parameter.
#[derive(Debug)]
pub enum TypedData {
    Http(RpcHttp),
    Scalar(BodyData),
}

/// View of a [`TypedData`].
pub enum TypedModel {
    Http(RpcHttpModel),
    Scalar(BodyModel),
}

impl View for TypedData {
    type V = TypedModel;

    open spec fn view(&self) -> TypedModel {
        match self {
            TypedData::Http(h) => TypedModel::Http(h@),
            TypedData::Scalar(b) => TypedModel::Scalar(b@),
        }
    }
}

/// A named parameter of an invocation.
#[derive(Debug)]
pub struct ParameterBinding {
    pub name: String,
    pub data: Option<TypedData>,
}

/// View of a [`ParameterBinding`].
pub struct BindingModel {
    pub name: Seq<char>,
    pub data: Option<TypedModel>,
}

impl View for ParameterBinding {
    type V = BindingModel;

    open spec fn view(&self) -> BindingModel {
        BindingModel {
            name: self.name@,
            data: match self.data {
                Some(d) => Some(d@),
                None => None,
            },
        }
    }
}

/// A request from the host to run the function.
#[derive(Debug)]
pub struct InvocationRequest {
    pub invocation_id: String,
    pub function_id: String,
    pub input_data: Vec<ParameterBinding>,
    /// Trigger metadata by key; each key occurs once.
    pub trigger_metadata: Vec<(String, TypedData)>,
}

/// View of an [`InvocationRequest`].
pub struct InvocationRequestModel {
    pub invocation_id: Seq<char>,
    pub function_id: Seq<char>,
    pub input_data: Seq<BindingModel>,
    pub trigger_metadata: Seq<(Seq<char>, TypedModel)>,
}

impl View for InvocationRequest {
    type V = InvocationRequestModel;

    open spec fn view(&self) -> InvocationRequestModel {
        InvocationRequestModel {
            invocation_id: self.invocation_id@,
            function_id: self.function_id@,
            input_data: self.input_data@.map_values(|b: ParameterBinding| b@),
            trigger_metadata: self.trigger_metadata@.map_values(|p: (String, TypedData)| (p.0@, p.1@)),
        }
    }
}

/// The answer to an [`InvocationRequest`].
#[derive(Debug)]
pub struct InvocationResponse {
    pub invocation_id: String,
    pub output_data: Vec<ParameterBinding>,
    pub return_value: Option<TypedData>,
    pub result: Option<StatusResult>,
}

/// View of an [`InvocationResponse`].
pub struct InvocationResponseModel {
    pub invocation_id: Seq<char>,
    pub output_data: Seq<BindingModel>,
    pub return_value: Option<TypedModel>,
    pub result: Option<StatusResultModel>,
}

impl View for InvocationResponse {
    type V = InvocationResponseModel;

    open spec fn view(&self) -> InvocationResponseModel {
        InvocationResponseModel {
            invocation_id: self.invocation_id@,
            output_data: self.output_data@.map_values(|b: ParameterBinding| b@),
            return_value: match self.return_value {
                Some(d) => Some(d@),
                None => None,
            },
            result: match self.result {
                Some(r) => Some(r@),
                None => None,
            },
        }
    }
}


/// The worker's description of itself.
#[derive(Debug)]
pub struct WorkerMetadata {
    pub runtime_name: String,
    pub runtime_version: String,
    pub worker_version: String,
    pub worker_bitness: String,
    pub custom_properties: Vec<(String, String)>,
}

/// The host asks the worker to start up.
#[derive(Debug)]
pub struct WorkerInitRequest {
    pub host_version: String,
    pub function_app_directory: String,
}

/// The worker's answer to a [`WorkerInitRequest`].
#[derive(Debug)]
pub struct WorkerInitResponse {
    pub worker_version: String,
    pub capabilities: Vec<(String, String)>,
    pub result: Option<StatusResult>,
    pub worker_metadata: Option<WorkerMetadata>,
}

/// `BindingInfo.direction` of an input binding.
pub const DIRECTION_IN: i32 = 0;
/// `BindingInfo.direction` of an output binding.
pub const DIRECTION_OUT: i32 = 1;
/// `BindingInfo.data_type` when the type is not given.
pub const DATA_TYPE_UNDEFINED: i32 = 0;
/// `BindingInfo.data_type` of text.
pub const DATA_TYPE_STRING: i32 = 1;

/// A binding of a function.
#[derive(Debug)]
pub struct BindingInfo {
    pub binding_type: String,
    pub direction: i32,
    pub data_type: i32,
    pub properties: Vec<(String, String)>,
}

/// A function the worker registers with the host.
#[derive(Debug)]
pub struct RpcFunctionMetadata {
    pub name: String,
    pub directory: String,
    pub script_file: String,
    pub entry_point: String,
    pub function_id: String,
    pub is_proxy: bool,
    pub bindings: Vec<(String, BindingInfo)>,
    pub language: String,
    pub raw_bindings: Vec<String>,
    pub managed_dependency_enabled: bool,
}

/// The host asks which functions the worker offers.
#[derive(Debug)]
pub struct FunctionsMetadataRequest {
    pub function_app_directory: String,
}

/// The worker's list of functions.
#[derive(Debug)]
pub struct FunctionMetadataResponse {
    pub function_metadata_results: Vec<RpcFunctionMetadata>,
    pub result: Option<StatusResult>,
    pub use_default_metadata_indexing: bool,
}

/// The host asks the worker to load a function.
#[derive(Debug)]
pub struct FunctionLoadRequest {
    pub function_id: String,
}

/// The worker's answer to a [`FunctionLoadRequest`].
#[derive(Debug)]
pub struct FunctionLoadResponse {
    pub function_id: String,
    pub result: Option<StatusResult>,
    pub is_dependency_downloaded: bool,
}

/// The host hands the worker new environment variables (specialization).
#[derive(Debug)]
pub struct FunctionEnvironmentReloadRequest {
    pub environment_variables: Vec<(String, String)>,
    pub function_app_directory: String,
}

/// The worker's answer to a [`FunctionEnvironmentReloadRequest`].
#[derive(Debug)]
pub struct FunctionEnvironmentReloadResponse {
    pub worker_metadata: Option<WorkerMetadata>,
    pub capabilities: Vec<(String, String)>,
    pub result: Option<StatusResult>,
    pub capabilities_update_strategy: i32,
}

/// The payload of a message on the event stream.
#[derive(Debug)]
pub enum Content {
    StartStream(String),
    WorkerInitRequest(WorkerInitRequest),
    WorkerInitResponse(WorkerInitResponse),
    FunctionsMetadataRequest(FunctionsMetadataRequest),
    FunctionMetadataResponse(FunctionMetadataResponse),
    FunctionLoadRequest(FunctionLoadRequest),
    FunctionLoadResponse(FunctionLoadResponse),
    FunctionLoadRequestCollection(Vec<FunctionLoadRequest>),
    FunctionLoadResponseCollection(Vec<FunctionLoadResponse>),
    InvocationRequest(InvocationRequest),
    InvocationResponse(InvocationResponse),
    WorkerStatusRequest,
    WorkerStatusResponse,
    WorkerHeartbeat,
    FunctionEnvironmentReloadRequest(FunctionEnvironmentReloadRequest),
    FunctionEnvironmentReloadResponse(FunctionEnvironmentReloadResponse),
    WorkerTerminate,
    /// Any other kind of message.
    Other,
}

/// A message on the event stream between the host and the worker.
#[derive(Debug)]
pub struct StreamingMessage {
    pub request_id: String,
    pub content: Option<Content>,
}

/// `r` reports success with an empty text.
pub open spec fn is_success(r: Option<StatusResult>) -> bool {
    r matches Some(s) && s.status == STATUS_SUCCESS && s@.result.len() == 0
}

/// The success result.
pub fn success() -> (r: Option<StatusResult>)
    ensures
        is_success(r),
{
    Some(StatusResult { status: STATUS_SUCCESS, result: String::new() })
}

} // verus!
