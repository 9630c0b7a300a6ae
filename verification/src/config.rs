//! Configuration of the adapter: readiness protocol, healthy status ranges,
//! settings read from the environment, and the worker's startup arguments.
use vstd::prelude::*;
use crate::text::{
    string_of,
    push_chars, push_decimal, push_str, str_eq, string_from,
    decimal, has_char, lemma_decimal_has_no, lemma_parse_decimal_roundtrip, lemma_split_on_join,
    lemma_split_on_without_sep, lemma_split_once_at_join, lemma_trim_without_white_space,
    chars_eq, chars_of, lowercase, parse_decimal, parse_unsigned, split_chars, split_on, split_once,
    split_once_chars, to_lowercase, trim, trim_chars,
};

verus! {

// ---------------------------------------------------------------------------
// Readiness protocol
// ---------------------------------------------------------------------------

/// Protocol used for readiness health checks.
#[derive(Debug, Clone, Copy, PartialEq, Eq, Structural)]
pub enum ReadinessProtocol {
    Http,
    Tcp,
}

/// The protocol named by already lower-cased text: `tcp` selects TCP, anything else HTTP.
pub open spec fn protocol_of_lowercase(lower: Seq<char>) -> ReadinessProtocol {
    if lower == seq!['t', 'c', 'p'] {
        ReadinessProtocol::Tcp
    } else {
        ReadinessProtocol::Http
    }
}

impl ReadinessProtocol {
    /// The protocol named by text that is already in lower case.
    pub fn from_lowercase(lower: &str) -> (r: Self)
        ensures
            r == protocol_of_lowercase(lower@),
    {
        let tcp: Vec<char> = vec!['t', 'c', 'p'];
        if chars_eq(&chars_of(lower), &tcp) {
            ReadinessProtocol::Tcp
        } else {
            ReadinessProtocol::Http
        }
    }

    /// The protocol named by `s`, compared without regard to case.
    pub fn from_str(s: &str) -> (r: Self)
        ensures
            r == protocol_of_lowercase(lowercase(s@)),
    {
        let lower = to_lowercase(s);
        Self::from_lowercase(lower.as_str())
    }
}

// ---------------------------------------------------------------------------
// Status ranges
// ---------------------------------------------------------------------------

/// A range of HTTP status codes considered "healthy", both ends included.
#[derive(Debug, Clone, Copy, PartialEq, Eq, Structural)]
pub struct StatusRange {
    pub min: u16,
    pub max: u16,
}

/// A status code as `str::parse::<u16>` reads it.
pub open spec fn parse_code(t: Seq<char>) -> Option<u16> {
    match parse_unsigned(t, 65535) {
        Some(v) => Some(v as u16),
        None => None,
    }
}

/// One comma-separated part of a status list: `lo-hi` or a single code, with white
/// space around the part and around each bound ignored. `None` when it does not parse.
pub open spec fn parse_range_part(part: Seq<char>) -> Option<StatusRange> {
    let p = trim(part);
    match split_once(p, '-') {
        Some((lo, hi)) => match (parse_code(trim(lo)), parse_code(trim(hi))) {
            (Some(a), Some(b)) => Some(StatusRange { min: a, max: b }),
            _ => None,
        },
        None => match parse_code(p) {
            Some(c) => Some(StatusRange { min: c, max: c }),
            None => None,
        },
    }
}

/// The ranges of the parts that parse, in order; the others are skipped.
pub open spec fn parse_range_parts(parts: Seq<Seq<char>>) -> Seq<StatusRange>
    decreases parts.len(),
{
    if parts.len() == 0 {
        Seq::empty()
    } else {
        let before = parse_range_parts(parts.drop_last());
        match parse_range_part(parts.last()) {
            Some(r) => before.push(r),
            None => before,
        }
    }
}

/// The ranges that a status list such as `200-299,404` denotes.
pub open spec fn parse_ranges(s: Seq<char>) -> Seq<StatusRange> {
    parse_range_parts(split_on(s, ','))
}

/// `code` lies in one of the ranges.
pub open spec fn ranges_contain(ranges: Seq<StatusRange>, code: u16) -> bool {
    exists|i: int| 0 <= i < ranges.len() && #[trigger] ranges[i].min <= code <= ranges[i].max
}

impl StatusRange {
    /// Parses a single code as `str::parse::<u16>` does.
    fn parse_code_chars(t: &Vec<char>) -> (r: Option<u16>)
        ensures
            r == parse_code(t@),
    {
        match parse_decimal(t, 65535) {
            Some(v) => Some(v as u16),
            None => None,
        }
    }

    /// Parses one part of a status list.
    fn parse_part(part: &Vec<char>) -> (r: Option<StatusRange>)
        ensures
            r == parse_range_part(part@),
    {
        let p = trim_chars(part);
        match split_once_chars(&p, '-') {
            Some((lo, hi)) => {
                let a = Self::parse_code_chars(&trim_chars(&lo));
                let b = Self::parse_code_chars(&trim_chars(&hi));
                match (a, b) {
                    (Some(a), Some(b)) => Some(StatusRange { min: a, max: b }),
                    _ => None,
                }
            },
            None => match Self::parse_code_chars(&p) {
                Some(c) => Some(StatusRange { min: c, max: c }),
                None => None,
            },
        }
    }

    /// Parse a range string like "200-399" or a single code like "200"; several are
    /// separated by commas, and parts that do not parse are skipped.
    pub fn parse(s: &str) -> (r: Vec<Self>)
        ensures
            r@ == parse_ranges(s@),
    {
        let parts = split_chars(&chars_of(s), ',');
        let ghost views = parts@.map_values(|p: Vec<char>| p@);
        let mut out: Vec<StatusRange> = Vec::new();
        let mut i: usize = 0;
        assert(views.take(0) =~= Seq::<Seq<char>>::empty());
        while i < parts.len()
            invariant
                0 <= i <= parts.len(),
                views == parts@.map_values(|p: Vec<char>| p@),
                out@ == parse_range_parts(views.take(i as int)),
            decreases parts.len() - i,
        {
            assert(views.take(i + 1).drop_last() =~= views.take(i as int));
            assert(views.take(i + 1).last() == parts@[i as int]@);
            match Self::parse_part(&parts[i]) {
                Some(r) => out.push(r),
                None => {},
            }
            i += 1;
        }
        assert(views.take(parts.len() as int) =~= views);
        out
    }

    /// Check if a status code falls within any of the ranges.
    pub fn contains(ranges: &[Self], code: u16) -> (r: bool)
        ensures
            r == ranges_contain(ranges@, code),
    {
        let mut i: usize = 0;
        while i < ranges.len()
            invariant
                0 <= i <= ranges.len(),
                forall|j: int| 0 <= j < i ==> !(#[trigger] ranges@[j].min <= code <= ranges@[j].max),
            decreases ranges.len() - i,
        {
            if code >= ranges[i].min && code <= ranges[i].max {
                return true;
            }
            i += 1;
        }
        false
    }
}

// ---------------------------------------------------------------------------
// Adapter configuration
// ---------------------------------------------------------------------------

/// Port the user's web application listens on.
pub const ENV_PORT: &'static str = "AZURE_FWA_PORT";
/// Fallback port variable (matches common framework conventions).
pub const ENV_PORT_FALLBACK: &'static str = "PORT";
/// Host the user's web application binds to.
pub const ENV_HOST: &'static str = "AZURE_FWA_HOST";
/// Readiness check port (defaults to the traffic port).
pub const ENV_READINESS_CHECK_PORT: &'static str = "AZURE_FWA_READINESS_CHECK_PORT";
/// Readiness check HTTP path.
pub const ENV_READINESS_CHECK_PATH: &'static str = "AZURE_FWA_READINESS_CHECK_PATH";
/// Readiness check protocol: "http" or "tcp".
pub const ENV_READINESS_CHECK_PROTOCOL: &'static str = "AZURE_FWA_READINESS_CHECK_PROTOCOL";
/// Healthy HTTP status range (e.g. "200-399").
pub const ENV_READINESS_CHECK_HEALTHY_STATUS: &'static str = "AZURE_FWA_READINESS_CHECK_HEALTHY_STATUS";
/// Readiness check interval in milliseconds.
pub const ENV_READINESS_CHECK_INTERVAL_MS: &'static str = "AZURE_FWA_READINESS_CHECK_INTERVAL_MS";
/// Maximum time to wait for the app to become ready (seconds).
pub const ENV_READINESS_CHECK_TIMEOUT_S: &'static str = "AZURE_FWA_READINESS_CHECK_TIMEOUT_S";
/// Startup command for the web application (e.g. "node index.js").
pub const ENV_STARTUP_COMMAND: &'static str = "AZURE_FWA_STARTUP_COMMAND";
/// Base path to strip from incoming requests.
pub const ENV_REMOVE_BASE_PATH: &'static str = "AZURE_FWA_REMOVE_BASE_PATH";
/// Enable response compression.
pub const ENV_ENABLE_COMPRESSION: &'static str = "AZURE_FWA_ENABLE_COMPRESSION";

/// Healthy status codes when nothing else is configured.
pub const DEFAULT_HEALTHY_STATUS: &'static str = "100-499";
/// Host of the web application when nothing else is configured.
pub const DEFAULT_HOST: &'static str = "127.0.0.1";
/// Readiness path when nothing else is configured.
pub const DEFAULT_READINESS_PATH: &'static str = "/";
/// Port of the web application when nothing else is configured.
pub const DEFAULT_PORT: u16 = 8080;
/// Milliseconds between readiness probes when nothing else is configured.
pub const DEFAULT_READINESS_INTERVAL_MS: u64 = 10;
/// Seconds to wait for readiness when nothing else is configured.
pub const DEFAULT_READINESS_TIMEOUT_S: u64 = 120;

/// The values of the adapter's environment variables, `None` where a variable is unset
/// (or not valid Unicode).
#[derive(Debug)]
pub struct EnvironmentSettings {
    pub port: Option<String>,
    pub port_fallback: Option<String>,
    pub host: Option<String>,
    pub readiness_check_port: Option<String>,
    pub readiness_check_path: Option<String>,
    pub readiness_check_protocol: Option<String>,
    pub readiness_check_healthy_status: Option<String>,
    pub readiness_check_interval_ms: Option<String>,
    pub readiness_check_timeout_s: Option<String>,
    pub startup_command: Option<String>,
    pub remove_base_path: Option<String>,
    pub enable_compression: Option<String>,
}

/// Complete configuration for the Azure Functions Web Adapter.
#[derive(Debug, Clone)]
pub struct AdapterConfig {
    /// Host the web app binds to.
    pub host: String,
    /// Port the web app listens on.
    pub port: u16,
    /// Port for readiness checks (defaults to `port`).
    pub readiness_check_port: u16,
    /// Path for readiness checks.
    pub readiness_check_path: String,
    /// Protocol for readiness checks.
    pub readiness_check_protocol: ReadinessProtocol,
    /// HTTP status codes considered healthy.
    pub readiness_healthy_status: Vec<StatusRange>,
    /// Interval between readiness check attempts, in milliseconds.
    pub readiness_check_interval_ms: u64,
    /// Maximum wait time for the app to become ready, in seconds.
    pub readiness_check_timeout_s: u64,
    /// Command to start the user's web application.
    pub startup_command: Option<String>,
    /// Base path to remove from incoming requests.
    pub remove_base_path: Option<String>,
    /// Whether to compress responses.
    pub enable_compression: bool,
}

/// The text of an optional string.
pub open spec fn opt_view(o: Option<String>) -> Option<Seq<char>> {
    match o {
        Some(s) => Some(s@),
        None => None,
    }
}

/// The text of a setting, or `default` when it is unset.
pub open spec fn text_or(v: Option<String>, default: Seq<char>) -> Seq<char> {
    match v {
        Some(s) => s@,
        None => default,
    }
}

/// A setting read as an unsigned number of at most `max`, or `default` when it is unset
/// or does not parse.
pub open spec fn number_or(v: Option<String>, max: nat, default: nat) -> nat {
    match v {
        Some(s) => match parse_unsigned(s@, max) {
            Some(n) => n,
            None => default,
        },
        None => default,
    }
}

/// The setting that decides the application port: `AZURE_FWA_PORT` when it is set,
/// else `PORT`.
pub open spec fn port_setting(env: EnvironmentSettings) -> Option<String> {
    if env.port is Some {
        env.port
    } else {
        env.port_fallback
    }
}

/// Whether the compression setting turns compression on: `true` in any case, or `1`.
pub open spec fn compression_on(v: Option<String>) -> bool {
    match v {
        Some(s) => lowercase(s@) == "true"@ || s@ == "1"@,
        None => false,
    }
}

/// `c` holds the defaults of every setting.
pub open spec fn is_default_config(c: AdapterConfig) -> bool {
    &&& c.host@ == DEFAULT_HOST@
    &&& c.port == DEFAULT_PORT
    &&& c.readiness_check_port == DEFAULT_PORT
    &&& c.readiness_check_path@ == DEFAULT_READINESS_PATH@
    &&& c.readiness_check_protocol == ReadinessProtocol::Http
    &&& c.readiness_healthy_status@ == parse_ranges(DEFAULT_HEALTHY_STATUS@)
    &&& c.readiness_check_interval_ms == DEFAULT_READINESS_INTERVAL_MS
    &&& c.readiness_check_timeout_s == DEFAULT_READINESS_TIMEOUT_S
    &&& c.startup_command is None
    &&& c.remove_base_path is None
    &&& !c.enable_compression
}

/// `c` is the configuration that the settings `env` describe; each unset or unreadable
/// number falls back to its default.
pub open spec fn config_from_settings(env: EnvironmentSettings, c: AdapterConfig) -> bool {
    let port = number_or(port_setting(env), 65535, DEFAULT_PORT as nat);
    &&& c.port == port
    &&& c.readiness_check_port == number_or(env.readiness_check_port, 65535, port)
    &&& c.readiness_check_path@ == text_or(env.readiness_check_path, DEFAULT_READINESS_PATH@)
    &&& c.readiness_check_protocol == (match env.readiness_check_protocol {
        Some(p) => protocol_of_lowercase(lowercase(p@)),
        None => ReadinessProtocol::Http,
    })
    &&& c.readiness_healthy_status@ == parse_ranges(
        text_or(env.readiness_check_healthy_status, DEFAULT_HEALTHY_STATUS@),
    )
    &&& c.readiness_check_interval_ms == number_or(
        env.readiness_check_interval_ms,
        u64::MAX as nat,
        DEFAULT_READINESS_INTERVAL_MS as nat,
    )
    &&& c.readiness_check_timeout_s == number_or(
        env.readiness_check_timeout_s,
        u64::MAX as nat,
        DEFAULT_READINESS_TIMEOUT_S as nat,
    )
    &&& c.host@ == text_or(env.host, DEFAULT_HOST@)
    &&& opt_view(c.startup_command) == opt_view(env.startup_command)
    &&& opt_view(c.remove_base_path) == opt_view(env.remove_base_path)
    &&& c.enable_compression == compression_on(env.enable_compression)
}

/// A setting read as an unsigned number of at most `max`, or `default`.
fn number_setting(v: &Option<String>, max: u64, default: u64) -> (r: u64)
    requires
        default <= max,
    ensures
        r == number_or(*v, max as nat, default as nat),
{
    match v {
        Some(s) => match parse_decimal(&chars_of(s.as_str()), max) {
            Some(n) => n,
            None => default,
        },
        None => default,
    }
}

/// A setting's text, or `default` when it is unset.
fn text_setting(v: Option<String>, default: &str) -> (r: String)
    ensures
        r@ == text_or(v, default@),
{
    match v {
        Some(s) => s,
        None => string_from(default),
    }
}

impl Default for AdapterConfig {
    fn default() -> (r: Self)
        ensures
            is_default_config(r),
    {
        AdapterConfig {
            host: string_from(DEFAULT_HOST),
            port: DEFAULT_PORT,
            readiness_check_port: DEFAULT_PORT,
            readiness_check_path: string_from(DEFAULT_READINESS_PATH),
            readiness_check_protocol: ReadinessProtocol::Http,
            readiness_healthy_status: StatusRange::parse(DEFAULT_HEALTHY_STATUS),
            readiness_check_interval_ms: DEFAULT_READINESS_INTERVAL_MS,
            readiness_check_timeout_s: DEFAULT_READINESS_TIMEOUT_S,
            startup_command: None,
            remove_base_path: None,
            enable_compression: false,
        }
    }
}

impl AdapterConfig {
    /// Build configuration from the values of the environment variables.
    pub fn from_settings(env: EnvironmentSettings) -> (r: Self)
        ensures
            config_from_settings(env, r),
    {
        let port_value = if env.port.is_some() { env.port } else { env.port_fallback };
        let port = number_setting(&port_value, 65535, DEFAULT_PORT as u64) as u16;
        let readiness_check_port = number_setting(&env.readiness_check_port, 65535, port as u64) as u16;
        let readiness_check_path = text_setting(env.readiness_check_path, DEFAULT_READINESS_PATH);
        let readiness_check_protocol = match &env.readiness_check_protocol {
            Some(p) => ReadinessProtocol::from_str(p.as_str()),
            None => ReadinessProtocol::Http,
        };
        let readiness_healthy_status = match &env.readiness_check_healthy_status {
            Some(v) => StatusRange::parse(v.as_str()),
            None => StatusRange::parse(DEFAULT_HEALTHY_STATUS),
        };
        let readiness_check_interval_ms = number_setting(
            &env.readiness_check_interval_ms,
            u64::MAX,
            DEFAULT_READINESS_INTERVAL_MS,
        );
        let readiness_check_timeout_s = number_setting(
            &env.readiness_check_timeout_s,
            u64::MAX,
            DEFAULT_READINESS_TIMEOUT_S,
        );
        let host = text_setting(env.host, DEFAULT_HOST);
        let enable_compression = match &env.enable_compression {
            Some(v) => {
                let lower = to_lowercase(v.as_str());
                str_eq(lower.as_str(), "true") || str_eq(v.as_str(), "1")
            },
            None => false,
        };
        AdapterConfig {
            host,
            port,
            readiness_check_port,
            readiness_check_path,
            readiness_check_protocol,
            readiness_healthy_status,
            readiness_check_interval_ms,
            readiness_check_timeout_s,
            startup_command: env.startup_command,
            remove_base_path: env.remove_base_path,
            enable_compression,
        }
    }

    /// Base URL the user's web application is listening on.
    pub fn app_base_url(&self) -> (r: String)
        ensures
            r@ == "http://"@ + self.host@ + ":"@ + decimal(self.port as nat),
    {
        let mut out = string_from("http://");
        push_str(&mut out, self.host.as_str());
        push_str(&mut out, ":");
        let mut digits: Vec<char> = Vec::new();
        push_decimal(&mut digits, self.port as u64);
        push_chars(&mut out, &digits);
        out
    }

    /// URL for readiness health checks.
    pub fn readiness_url(&self) -> (r: String)
        ensures
            r@ == "http://"@ + self.host@ + ":"@ + decimal(self.readiness_check_port as nat)
                + self.readiness_check_path@,
    {
        let mut out = string_from("http://");
        push_str(&mut out, self.host.as_str());
        push_str(&mut out, ":");
        let mut digits: Vec<char> = Vec::new();
        push_decimal(&mut digits, self.readiness_check_port as u64);
        push_chars(&mut out, &digits);
        push_str(&mut out, self.readiness_check_path.as_str());
        out
    }
}

// ---------------------------------------------------------------------------
// Worker startup arguments
// ---------------------------------------------------------------------------

/// Largest gRPC message, in bytes, when the arguments name none that parses.
pub const DEFAULT_GRPC_MAX_MESSAGE_LENGTH: usize = 134217728;

/// Why startup arguments are refused.
pub const MISSING_ARGS_MESSAGE: &'static str = "Missing required args: need --host/--port/--workerId (func start format) or --functions-uri/--functions-worker-id (direct format)";

/// Startup arguments passed by the Azure Functions Host to the worker process.
#[derive(Debug, Clone)]
pub struct WorkerStartupArgs {
    /// gRPC address of the Azure Functions Host.
    pub functions_uri: String,
    /// Unique worker ID assigned by the host.
    pub worker_id: String,
    /// Request ID from the host.
    pub request_id: String,
    /// Maximum gRPC message size in bytes.
    pub grpc_max_message_length: usize,
}

/// What a scan of the command line has collected so far.
pub struct ArgScan {
    pub functions_uri: Seq<char>,
    pub worker_id: Seq<char>,
    pub request_id: Seq<char>,
    pub grpc_max_message_length: nat,
    pub host: Seq<char>,
    pub port: Seq<char>,
}

/// Nothing collected yet.
pub open spec fn initial_scan() -> ArgScan {
    ArgScan {
        functions_uri: Seq::empty(),
        worker_id: Seq::empty(),
        request_id: Seq::empty(),
        grpc_max_message_length: DEFAULT_GRPC_MAX_MESSAGE_LENGTH as nat,
        host: Seq::empty(),
        port: Seq::empty(),
    }
}

/// The message length that a flag's value sets: the value read as a `usize`, or the
/// default when it does not parse.
pub open spec fn message_length_of(v: Seq<char>) -> nat {
    match parse_unsigned(v, usize::MAX as nat) {
        Some(n) => n,
        None => DEFAULT_GRPC_MAX_MESSAGE_LENGTH as nat,
    }
}

/// The scan state after the flag `flag` took `v` as its value.
pub open spec fn apply_flag(flag: Seq<char>, v: Seq<char>, st: ArgScan) -> ArgScan {
    if flag == "--host"@ {
        ArgScan { host: v, ..st }
    } else if flag == "--port"@ {
        ArgScan { port: v, ..st }
    } else if flag == "--workerId"@ || flag == "--functions-worker-id"@ {
        ArgScan { worker_id: v, ..st }
    } else if flag == "--requestId"@ || flag == "--functions-request-id"@ {
        ArgScan { request_id: v, ..st }
    } else if flag == "--grpcMaxMessageLength"@ || flag == "--functions-grpc-max-message-length"@ {
        ArgScan { grpc_max_message_length: message_length_of(v), ..st }
    } else {
        ArgScan { functions_uri: v, ..st }
    }
}

/// One of the flags that take the next argument as their value.
pub open spec fn is_value_flag(a: Seq<char>) -> bool {
    ||| a == "--host"@
    ||| a == "--port"@
    ||| a == "--workerId"@
    ||| a == "--requestId"@
    ||| a == "--grpcMaxMessageLength"@
    ||| a == "--functions-uri"@
    ||| a == "--functions-worker-id"@
    ||| a == "--functions-request-id"@
    ||| a == "--functions-grpc-max-message-length"@
}

/// Scans the arguments from position `i` on: a known flag takes the argument after it
/// as its value (whatever that argument is), and any other argument is skipped. A flag
/// in last position has no value and changes nothing.
pub open spec fn scan_args(args: Seq<Seq<char>>, i: int, st: ArgScan) -> ArgScan
    decreases args.len() - i,
{
    if i < 0 || i >= args.len() {
        st
    } else if is_value_flag(args[i]) {
        if i + 1 < args.len() {
            scan_args(args, i + 2, apply_flag(args[i], args[i + 1], st))
        } else {
            st
        }
    } else {
        scan_args(args, i + 1, st)
    }
}

/// The host address: the one given directly, else `http://host:port` when both are given.
pub open spec fn resolved_uri(st: ArgScan) -> Seq<char> {
    if st.functions_uri.len() == 0 && st.host.len() > 0 && st.port.len() > 0 {
        "http://"@ + st.host + ":"@ + st.port
    } else {
        st.functions_uri
    }
}

/// The texts of a list of strings.
pub open spec fn views_of(args: Seq<String>) -> Seq<Seq<char>> {
    args.map_values(|s: String| s@)
}

impl WorkerStartupArgs {
    /// Parse startup arguments from the command line `args` (the program's own name
    /// first). Supports the host's format `--host h --port p --workerId id --requestId
    /// id --grpcMaxMessageLength n` and the direct format `--functions-uri u
    /// --functions-worker-id id --functions-request-id id
    /// --functions-grpc-max-message-length n`.
    pub fn from_arg_list(args: &Vec<String>) -> (r: Result<Self, String>)
        ensures
            ({
                let st = scan_args(views_of(args@), 1, initial_scan());
                let uri = resolved_uri(st);
                match r {
                    Ok(w) => {
                        &&& uri.len() > 0
                        &&& st.worker_id.len() > 0
                        &&& w.functions_uri@ == uri
                        &&& w.worker_id@ == st.worker_id
                        &&& w.request_id@ == st.request_id
                        &&& w.grpc_max_message_length == st.grpc_max_message_length
                    },
                    Err(e) => (uri.len() == 0 || st.worker_id.len() == 0) && e@
                        == MISSING_ARGS_MESSAGE@,
                }
            }),
    {
        let ghost av = views_of(args@);
        let mut functions_uri: Vec<char> = Vec::new();
        let mut worker_id: Vec<char> = Vec::new();
        let mut request_id: Vec<char> = Vec::new();
        let mut grpc_max_message_length: usize = DEFAULT_GRPC_MAX_MESSAGE_LENGTH;
        let mut host: Vec<char> = Vec::new();
        let mut port: Vec<char> = Vec::new();
        let mut i: usize = 1;
        while i < args.len()
            invariant
                1 <= i,
                av == views_of(args@),
                av.len() == args.len(),
                grpc_max_message_length <= usize::MAX,
                scan_args(av, 1, initial_scan()) == scan_args(
                    av,
                    i as int,
                    ArgScan {
                        functions_uri: functions_uri@,
                        worker_id: worker_id@,
                        request_id: request_id@,
                        grpc_max_message_length: grpc_max_message_length as nat,
                        host: host@,
                        port: port@,
                    },
                ),
            decreases args.len() - i,
        {
            let a = args[i].as_str();
            assert(av[i as int] == a@);
            let is_host = str_eq(a, "--host");
            let is_port = str_eq(a, "--port");
            let is_worker = str_eq(a, "--workerId");
            let is_request = str_eq(a, "--requestId");
            let is_length = str_eq(a, "--grpcMaxMessageLength");
            let is_uri = str_eq(a, "--functions-uri");
            let is_direct_worker = str_eq(a, "--functions-worker-id");
            let is_direct_request = str_eq(a, "--functions-request-id");
            let is_direct_length = str_eq(a, "--functions-grpc-max-message-length");
            if is_host || is_port || is_worker || is_request || is_length || is_uri
                || is_direct_worker || is_direct_request || is_direct_length {
                if i + 1 < args.len() {
                    let v = chars_of(args[i + 1].as_str());
                    assert(av[i + 1] == v@);
                    if is_host {
                        host = v;
                    } else if is_port {
                        port = v;
                    } else if is_worker || is_direct_worker {
                        worker_id = v;
                    } else if is_request || is_direct_request {
                        request_id = v;
                    } else if is_length || is_direct_length {
                        grpc_max_message_length = match parse_decimal(&v, usize::MAX as u64) {
                            Some(n) => n as usize,
                            None => DEFAULT_GRPC_MAX_MESSAGE_LENGTH,
                        };
                    } else {
                        functions_uri = v;
                    }
                    i = i + 2;
                } else {
                    i = args.len();
                }
            } else {
                i = i + 1;
            }
        }
        if functions_uri.len() == 0 && host.len() > 0 && port.len() > 0 {
            let uri: Vec<char> = vec!['h', 't', 't', 'p', ':', '/', '/'];
            assert(uri@ == "http://"@) by {
                reveal_strlit("http://");
            }
            let colon: Vec<char> = vec![':'];
            assert(colon@ == ":"@) by {
                reveal_strlit(":");
            }
            let mut joined = string_of(&uri);
            push_chars(&mut joined, &host);
            push_chars(&mut joined, &colon);
            push_chars(&mut joined, &port);
            functions_uri = chars_of(joined.as_str());
        }
        if functions_uri.len() == 0 || worker_id.len() == 0 {
            return Err(string_from(MISSING_ARGS_MESSAGE));
        }
        Ok(WorkerStartupArgs {
            functions_uri: string_of(&functions_uri),
            worker_id: string_of(&worker_id),
            request_id: string_of(&request_id),
            grpc_max_message_length,
        })
    }
}

/// With no variable set, the configuration read from the environment is the default one.
pub proof fn law_unset_settings_give_defaults(env: EnvironmentSettings, c: AdapterConfig)
    requires
        env.port is None,
        env.port_fallback is None,
        env.host is None,
        env.readiness_check_port is None,
        env.readiness_check_path is None,
        env.readiness_check_protocol is None,
        env.readiness_check_healthy_status is None,
        env.readiness_check_interval_ms is None,
        env.readiness_check_timeout_s is None,
        env.startup_command is None,
        env.remove_base_path is None,
        env.enable_compression is None,
        config_from_settings(env, c),
    ensures
        is_default_config(c),
{
}

/// Scanning from any position up to a length flag at `k` that is followed by the last
/// argument, `decimal(n)`, ends with that length.
proof fn lemma_scan_ends_with_length(args: Seq<Seq<char>>, i: int, st: ArgScan, n: nat)
    requires
        args.len() >= 3,
        1 <= i <= args.len() - 2,
        args[args.len() - 2] == "--grpcMaxMessageLength"@ || args[args.len() - 2]
            == "--functions-grpc-max-message-length"@,
        args[args.len() - 1] == decimal(n),
        n <= usize::MAX,
        args.len() > 3 ==> !is_value_flag(args[args.len() - 3]),
    ensures
        scan_args(args, i, st).grpc_max_message_length == n,
    decreases args.len() - i,
{
    let k = args.len() - 2;
    if i == k {
        reveal_strlit("--host");
        reveal_strlit("--port");
        reveal_strlit("--workerId");
        reveal_strlit("--functions-worker-id");
        reveal_strlit("--requestId");
        reveal_strlit("--functions-request-id");
        reveal_strlit("--grpcMaxMessageLength");
        reveal_strlit("--functions-grpc-max-message-length");
        lemma_parse_decimal_roundtrip(n, usize::MAX as nat);
        let f = args[i];
        assert(f.len() == 22 || f.len() == 35);
        assert(f != "--host"@ && f != "--port"@ && f != "--workerId"@ && f != "--requestId"@);
        if f.len() == 22 {
            assert(f[2] == 'g');
            assert("--functions-request-id"@[2] == 'f');
        }
        assert(f != "--functions-worker-id"@ && f != "--functions-request-id"@);
        let next = apply_flag(args[i], args[i + 1], st);
        assert(next.grpc_max_message_length == message_length_of(decimal(n)));
        assert(scan_args(args, i + 2, next) == next);
        assert(scan_args(args, i, st) == scan_args(args, i + 2, next));
    } else if is_value_flag(args[i]) {
        lemma_scan_ends_with_length(args, i + 2, apply_flag(args[i], args[i + 1], st), n);
    } else {
        lemma_scan_ends_with_length(args, i + 1, st, n);
    }
}

/// When the command line ends with either length flag, `--grpcMaxMessageLength` or
/// `--functions-grpc-max-message-length`, followed by the decimal text of some `n` that
/// fits a `usize` (and that flag is not itself taken as another flag's value), the
/// largest message length read is `n`, whatever comes before.
pub proof fn law_last_length_flag_sets_length(args: Seq<Seq<char>>, n: nat)
    requires
        args.len() >= 3,
        args[args.len() - 2] == "--grpcMaxMessageLength"@ || args[args.len() - 2]
            == "--functions-grpc-max-message-length"@,
        args[args.len() - 1] == decimal(n),
        n <= usize::MAX,
        args.len() > 3 ==> !is_value_flag(args[args.len() - 3]),
    ensures
        scan_args(args, 1, initial_scan()).grpc_max_message_length == n,
{
    lemma_scan_ends_with_length(args, 1, initial_scan(), n);
}

/// Reading settings: `AZURE_FWA_PORT` gives the port when it is set, and `PORT` only when
/// it is not; the readiness port follows the port unless set; numbers are read in
/// decimal; compression is on for `1` or any casing of `true`, and off when unset.
pub proof fn law_settings_are_read(env: EnvironmentSettings, c: AdapterConfig, n: nat, t: nat)
    requires
        config_from_settings(env, c),
    ensures
        (env.port matches Some(s) && s@ == decimal(n) && n <= 65535) ==> c.port == n,
        (env.port is None && (env.port_fallback matches Some(s) && s@ == decimal(n)) && n <= 65535)
            ==> c.port == n,
        (env.port is None && env.port_fallback is None) ==> c.port == 8080,
        env.readiness_check_port is None ==> c.readiness_check_port == c.port,
        (env.readiness_check_port matches Some(s) && s@ == decimal(n) && n <= 65535)
            ==> c.readiness_check_port == n,
        (env.readiness_check_timeout_s matches Some(s) && s@ == decimal(t) && t <= u64::MAX)
            ==> c.readiness_check_timeout_s == t,
        (env.readiness_check_interval_ms matches Some(s) && s@ == decimal(t) && t <= u64::MAX)
            ==> c.readiness_check_interval_ms == t,
        (env.enable_compression matches Some(s) && (s@ == "1"@ || lowercase(s@) == "true"@))
            ==> c.enable_compression,
        (env.enable_compression matches Some(s) && s@ != "1"@ && lowercase(s@) != "true"@)
            ==> !c.enable_compression,
        env.enable_compression is None ==> !c.enable_compression,
        env.host matches Some(h) ==> c.host@ == h@,
{
    if n <= 65535 {
        lemma_parse_decimal_roundtrip(n, 65535);
    }
    if t <= u64::MAX {
        lemma_parse_decimal_roundtrip(t, u64::MAX as nat);
    }
}

/// Scanning a command line that ends with a value flag `f` and its value `v` (where `f`
/// is not itself taken as a value) gives what scanning the rest gives, with `f` then
/// applied to `v`.
proof fn lemma_scan_last_pair(p: Seq<Seq<char>>, f: Seq<char>, v: Seq<char>, i: int, st: ArgScan)
    requires
        p.len() >= 1,
        1 <= i <= p.len(),
        is_value_flag(f),
        p.len() > 1 ==> !is_value_flag(p.last()),
    ensures
        scan_args(p.push(f).push(v), i, st) == apply_flag(f, v, scan_args(p, i, st)),
    decreases p.len() - i,
{
    let a = p.push(f).push(v);
    if i == p.len() {
        assert(a[i] == f);
        assert(a[i + 1] == v);
        assert(scan_args(a, i + 2, apply_flag(f, v, st)) == apply_flag(f, v, st));
    } else {
        assert(a[i] == p[i]);
        if is_value_flag(p[i]) {
            assert(i + 1 < p.len());
            assert(a[i + 1] == p[i + 1]);
            lemma_scan_last_pair(p, f, v, i + 2, apply_flag(p[i], p[i + 1], st));
        } else {
            lemma_scan_last_pair(p, f, v, i + 1, st);
        }
    }
}

/// The last flag on the command line decides its field: after `--workerId` or
/// `--functions-worker-id` with `v` the worker id is `v`; after `--requestId` or
/// `--functions-request-id` the request id is `v`; after `--functions-uri` the address
/// is `v`; after `--host` or `--port` those parts are `v`; after either length flag with
/// the decimal text of `n` (fitting a `usize`) the length is `n`. The other fields keep
/// what the arguments before gave them.
pub proof fn law_last_flag_decides(p: Seq<Seq<char>>, f: Seq<char>, v: Seq<char>, n: nat)
    requires
        p.len() >= 1,
        p.len() > 1 ==> !is_value_flag(p.last()),
        is_value_flag(f),
    ensures
        ({
            let before = scan_args(p, 1, initial_scan());
            let after = scan_args(p.push(f).push(v), 1, initial_scan());
            &&& (f == "--workerId"@ || f == "--functions-worker-id"@) ==> after == ArgScan {
                worker_id: v,
                ..before
            }
            &&& (f == "--requestId"@ || f == "--functions-request-id"@) ==> after == ArgScan {
                request_id: v,
                ..before
            }
            &&& f == "--functions-uri"@ ==> after == ArgScan { functions_uri: v, ..before }
            &&& f == "--host"@ ==> after == ArgScan { host: v, ..before }
            &&& f == "--port"@ ==> after == ArgScan { port: v, ..before }
            &&& ((f == "--grpcMaxMessageLength"@ || f == "--functions-grpc-max-message-length"@) && v
                == decimal(n) && n <= usize::MAX) ==> after == ArgScan {
                grpc_max_message_length: n,
                ..before
            }
        }),
{
    lemma_scan_last_pair(p, f, v, 1, initial_scan());
    reveal_strlit("--host");
    reveal_strlit("--port");
    reveal_strlit("--workerId");
    reveal_strlit("--functions-worker-id");
    reveal_strlit("--requestId");
    reveal_strlit("--functions-request-id");
    reveal_strlit("--grpcMaxMessageLength");
    reveal_strlit("--functions-grpc-max-message-length");
    reveal_strlit("--functions-uri");
    if n <= usize::MAX {
        lemma_parse_decimal_roundtrip(n, usize::MAX as nat);
    }
    assert("--host"@.len() == 6 && "--port"@.len() == 6 && "--workerId"@.len() == 10);
    assert("--functions-worker-id"@.len() == 21 && "--requestId"@.len() == 11);
    assert("--functions-request-id"@.len() == 22 && "--grpcMaxMessageLength"@.len() == 22);
    assert("--functions-grpc-max-message-length"@.len() == 35 && "--functions-uri"@.len() == 15);
    assert("--host"@[2] == 'h' && "--port"@[2] == 'p');
    assert("--functions-request-id"@[2] == 'f' && "--grpcMaxMessageLength"@[2] == 'g');
}

/// Without a direct address, the host and port flags make the address
/// `http://host:port`; a direct address wins over them.
pub proof fn law_address_from_host_and_port(st: ArgScan)
    ensures
        st.functions_uri.len() > 0 ==> resolved_uri(st) == st.functions_uri,
        (st.functions_uri.len() == 0 && st.host.len() > 0 && st.port.len() > 0) ==> resolved_uri(st)
            == "http://"@ + st.host + ":"@ + st.port,
{
}

/// The ranges of a list of parts placed after other parts are placed after theirs.
pub proof fn lemma_parse_range_parts_append(p: Seq<Seq<char>>, q: Seq<Seq<char>>)
    ensures
        parse_range_parts(p + q) == parse_range_parts(p) + parse_range_parts(q),
    decreases q.len(),
{
    if q.len() == 0 {
        assert(p + q =~= p);
        assert(parse_range_parts(p) + parse_range_parts(q) =~= parse_range_parts(p));
    } else {
        assert((p + q).drop_last() =~= p + q.drop_last());
        assert((p + q).last() == q.last());
        lemma_parse_range_parts_append(p, q.drop_last());
        let left = parse_range_parts(p);
        let right = parse_range_parts(q.drop_last());
        match parse_range_part(q.last()) {
            Some(r) => {
                assert((left + right).push(r) =~= left + right.push(r));
            },
            None => {},
        }
    }
}

/// A status list joined from two lists with a comma denotes the ranges of the first
/// list followed by the ranges of the second.
pub proof fn law_status_list_join(a: Seq<char>, b: Seq<char>)
    ensures
        parse_ranges(a.push(',') + b) == parse_ranges(a) + parse_ranges(b),
{
    lemma_split_on_join(a, b, ',');
    lemma_parse_range_parts_append(split_on(a, ','), split_on(b, ','));
}

/// The text `lo-hi`, with both bounds written in decimal, denotes exactly the range
/// from `lo` to `hi`.
pub proof fn law_status_range_text(lo: u16, hi: u16)
    ensures
        parse_ranges(decimal(lo as nat).push('-') + decimal(hi as nat)) == seq![StatusRange { min: lo, max: hi }],
{
    let dl = decimal(lo as nat);
    let dh = decimal(hi as nat);
    let s = dl.push('-') + dh;
    lemma_decimal_has_no(lo as nat, '-');
    lemma_decimal_has_no(hi as nat, '-');
    lemma_decimal_has_no(lo as nat, ',');
    lemma_decimal_has_no(hi as nat, ',');
    assert(!has_char(s, ',')) by {
        if has_char(s, ',') {
            let i = choose|i: int| 0 <= i < s.len() && s[i] == ',';
            if i < dl.len() {
                assert(s[i] == dl[i]);
            } else if i > dl.len() {
                assert(s[i] == dh[i - dl.len() - 1]);
            }
        }
    }
    assert forall|i: int| 0 <= i < s.len() implies !crate::text::is_white_space(#[trigger] s[i]) by {
        if i < dl.len() {
            assert(s[i] == dl[i]);
        } else if i > dl.len() {
            assert(s[i] == dh[i - dl.len() - 1]);
        }
    }
    lemma_split_on_without_sep(s, ',');
    lemma_trim_without_white_space(s);
    lemma_trim_without_white_space(dl);
    lemma_trim_without_white_space(dh);
    lemma_split_once_at_join(dl, dh, '-');
    lemma_parse_decimal_roundtrip(lo as nat, 65535);
    lemma_parse_decimal_roundtrip(hi as nat, 65535);
    assert(trim(s) == s);
    assert(split_once(s, '-') == Some((dl, dh)));
    assert(parse_code(dl) == Some(lo));
    assert(parse_code(dh) == Some(hi));
    assert(parse_range_part(s) == Some(StatusRange { min: lo, max: hi }));
    assert(seq![s].drop_last() =~= Seq::<Seq<char>>::empty());
    assert(parse_range_parts(Seq::<Seq<char>>::empty()) == Seq::<StatusRange>::empty());
    assert(seq![s].last() == s);
    assert(parse_range_parts(seq![s]) == seq![StatusRange { min: lo, max: hi }]);
}

/// A code is healthy under the list `lo-hi` exactly when it lies between the bounds.
pub proof fn law_status_range_membership(lo: u16, hi: u16, code: u16)
    ensures
        ranges_contain(parse_ranges(decimal(lo as nat).push('-') + decimal(hi as nat)), code) <==> (lo
            <= code <= hi),
{
    law_status_range_text(lo, hi);
    let r = seq![StatusRange { min: lo, max: hi }];
    if lo <= code <= hi {
        assert(r[0].min <= code <= r[0].max);
    }
}

} // verus!
