//! Readiness checking: when the web application counts as ready, and what the probe
//! sends and reads.
use vstd::prelude::*;
use crate::config::{ranges_contain, AdapterConfig, StatusRange};
use crate::text::{
    chars_of, decimal, from_utf8_lossy, parse_decimal, parse_unsigned, push_chars, push_decimal,
    push_str, string_from, utf8_lossy, words, words_of,
};

verus! {

/// Error returned when the readiness check times out.
#[derive(Debug)]
pub struct ReadinessTimeoutError {
    /// Time waited, in nanoseconds.
    pub elapsed_nanos: u128,
}

/// What `Debug` writes for the duration of `secs` seconds and `nanos` nanoseconds.
pub uninterp spec fn duration_debug(secs: u64, nanos: u32) -> Seq<char>;

/// Writes `std::time::Duration::new(secs, nanos)` with its `Debug` format (such as
/// `1.5s` or `10ms`); the text is named by `duration_debug`.
#[verifier::external_body]
fn duration_text(secs: u64, nanos: u32) -> (r: String)
    requires
        nanos < 1000000000,
    ensures
        r@ == duration_debug(secs, nanos),
{
    format!("{:?}", std::time::Duration::new(secs, nanos))
}

/// The start of the message of a [`ReadinessTimeoutError`].
pub const TIMEOUT_MESSAGE_PREFIX: &'static str = "web application did not become ready within ";

impl ReadinessTimeoutError {
    /// The message of the error: the time waited, as a duration's `Debug` text.
    pub fn message(&self) -> (r: String)
        requires
            self.elapsed_nanos / NANOS_PER_SECOND <= u64::MAX,
        ensures
            r@ == TIMEOUT_MESSAGE_PREFIX@ + duration_debug(
                (self.elapsed_nanos / NANOS_PER_SECOND) as u64,
                (self.elapsed_nanos % NANOS_PER_SECOND) as u32,
            ),
    {
        let secs = (self.elapsed_nanos / NANOS_PER_SECOND) as u64;
        let nanos = (self.elapsed_nanos % NANOS_PER_SECOND) as u32;
        let mut out = string_from(TIMEOUT_MESSAGE_PREFIX);
        push_str(&mut out, duration_text(secs, nanos).as_str());
        out
    }
}

/// What to do next while waiting for the web application.
#[derive(Debug)]
pub enum ReadinessStep {
    /// The deadline has passed: give up.
    TimedOut(ReadinessTimeoutError),
    /// Probe the application now.
    Probe,
    /// The application answered: it is ready after the given time, in nanoseconds.
    Ready(u128),
    /// Wait this many milliseconds, then look again.
    Wait(u64),
}

/// Nanoseconds in a second.
pub const NANOS_PER_SECOND: u128 = 1000000000;

/// The deadline of the readiness check has passed after `elapsed_nanos`.
pub open spec fn deadline_passed(config: AdapterConfig, elapsed_nanos: u128) -> bool {
    elapsed_nanos >= config.readiness_check_timeout_s * NANOS_PER_SECOND
}

/// The step after `elapsed_nanos`, given the outcome of the probe just made (`None`
/// before a probe): time out once the deadline has passed, else probe; ready when the
/// probe succeeded, else wait the configured interval.
pub open spec fn readiness_step(config: AdapterConfig, elapsed_nanos: u128, probe: Option<bool>) -> ReadinessStep {
    match probe {
        None => if deadline_passed(config, elapsed_nanos) {
            ReadinessStep::TimedOut(ReadinessTimeoutError { elapsed_nanos })
        } else {
            ReadinessStep::Probe
        },
        Some(true) => ReadinessStep::Ready(elapsed_nanos),
        Some(false) => ReadinessStep::Wait(config.readiness_check_interval_ms),
    }
}

/// Decide the next step of the readiness check.
pub fn next_readiness_step(config: &AdapterConfig, elapsed_nanos: u128, probe: Option<bool>) -> (r: ReadinessStep)
    ensures
        r == readiness_step(*config, elapsed_nanos, probe),
{
    match probe {
        None => {
            let limit: u128 = config.readiness_check_timeout_s as u128 * NANOS_PER_SECOND;
            if elapsed_nanos >= limit {
                ReadinessStep::TimedOut(ReadinessTimeoutError { elapsed_nanos })
            } else {
                ReadinessStep::Probe
            }
        },
        Some(true) => ReadinessStep::Ready(elapsed_nanos),
        Some(false) => ReadinessStep::Wait(config.readiness_check_interval_ms),
    }
}

/// The HTTP/1.1 request that probes the web application.
pub open spec fn probe_request_text(config: AdapterConfig) -> Seq<char> {
    "GET "@ + config.readiness_check_path@ + " HTTP/1.1\r\nHost: "@ + config.host@ + ":"@ + decimal(
        config.readiness_check_port as nat,
    ) + "\r\nConnection: close\r\n\r\n"@
}

/// Build a minimal HTTP/1.1 GET request for the readiness path.
pub fn probe_request(config: &AdapterConfig) -> (r: String)
    ensures
        r@ == probe_request_text(*config),
{
    let mut out = string_from("GET ");
    push_str(&mut out, config.readiness_check_path.as_str());
    push_str(&mut out, " HTTP/1.1\r\nHost: ");
    push_str(&mut out, config.host.as_str());
    push_str(&mut out, ":");
    let mut digits: Vec<char> = Vec::new();
    push_decimal(&mut digits, config.readiness_check_port as u64);
    push_chars(&mut out, &digits);
    push_str(&mut out, "\r\nConnection: close\r\n\r\n");
    out
}

/// The status code of a response: its second word (after `HTTP/1.1`) read as a `u16`.
pub open spec fn response_status(text: Seq<char>) -> Option<u16> {
    let ws = words(text);
    if ws.len() >= 2 {
        match parse_unsigned(ws[1], 65535) {
            Some(v) => Some(v as u16),
            None => None,
        }
    } else {
        None
    }
}

/// The first bytes of a response show a healthy application: they decode (invalid
/// UTF-8 replaced) to text whose status code lies in a healthy range.
pub open spec fn healthy_response(bytes: Seq<u8>, ranges: Seq<StatusRange>) -> bool {
    match response_status(utf8_lossy(bytes)) {
        Some(code) => ranges_contain(ranges, code),
        None => false,
    }
}

/// The status code of a response's text.
pub fn status_of_response(text: &str) -> (r: Option<u16>)
    ensures
        r == response_status(text@),
{
    let ws = words_of(&chars_of(text));
    let ghost wv = ws@.map_values(|w: Vec<char>| w@);
    if ws.len() >= 2 {
        assert(wv[1] == ws@[1]@);
        match parse_decimal(&ws[1], 65535) {
            Some(v) => Some(v as u16),
            None => None,
        }
    } else {
        None
    }
}

/// Whether the first bytes read from the application show it healthy.
pub fn is_healthy_response(bytes: &[u8], ranges: &[StatusRange]) -> (r: bool)
    ensures
        r == healthy_response(bytes@, ranges@),
{
    let text = from_utf8_lossy(bytes);
    match status_of_response(text.as_str()) {
        Some(code) => StatusRange::contains(ranges, code),
        None => false,
    }
}

/// Once the deadline has passed, the check gives up before probing; before it, the
/// application is always probed.
pub proof fn law_readiness_deadline(config: AdapterConfig, elapsed_nanos: u128)
    ensures
        readiness_step(config, elapsed_nanos, None) is TimedOut <==> deadline_passed(config, elapsed_nanos),
        !deadline_passed(config, elapsed_nanos) ==> readiness_step(config, elapsed_nanos, None) is Probe,
{
}

/// The check reports ready only after a successful probe, with the time it has waited.
pub proof fn law_ready_only_after_success(config: AdapterConfig, elapsed_nanos: u128, probe: Option<bool>)
    ensures
        readiness_step(config, elapsed_nanos, probe) is Ready <==> probe == Some(true),
        readiness_step(config, elapsed_nanos, probe) matches ReadinessStep::Ready(t) ==> t == elapsed_nanos,
{
}

/// Before a probe, the check gives up exactly once the configured number of seconds has
/// passed (counted in nanoseconds), and probes the application otherwise; after a probe
/// it is ready at once on success and otherwise waits the configured interval.
pub proof fn law_readiness_follows_configuration(config: AdapterConfig, elapsed_nanos: u128)
    ensures
        elapsed_nanos >= config.readiness_check_timeout_s as int * 1000000000 ==> readiness_step(
            config,
            elapsed_nanos,
            None,
        ) == ReadinessStep::TimedOut(ReadinessTimeoutError { elapsed_nanos }),
        elapsed_nanos < config.readiness_check_timeout_s as int * 1000000000 ==> readiness_step(
            config,
            elapsed_nanos,
            None,
        ) == ReadinessStep::Probe,
        readiness_step(config, elapsed_nanos, Some(true)) == ReadinessStep::Ready(elapsed_nanos),
        readiness_step(config, elapsed_nanos, Some(false)) == ReadinessStep::Wait(
            config.readiness_check_interval_ms,
        ),
{
}

} // verus!
