//! How the adapter decides which way to run.
use vstd::prelude::*;
use crate::grpc_handler::TERMINATED_MESSAGE;
use crate::text::{
    chars_contain, chars_of, contains_seq, lowercase, parse_decimal, parse_unsigned, str_eq,
    to_lowercase,
};

verus! {

/// The port the host's custom-handler mode asks the adapter to listen on: the value of
/// `FUNCTIONS_CUSTOMHANDLER_PORT` when it is set and reads as a `u16`.
pub fn http_proxy_port(value: Option<&str>) -> (r: Option<u16>)
    ensures
        r == match value {
            Some(v) => match parse_unsigned(v@, 65535) {
                Some(n) => Some(n as u16),
                None => None,
            },
            None => None,
        },
{
    match value {
        Some(v) => match parse_decimal(&chars_of(v), 65535) {
            Some(n) => Some(n as u16),
            None => None,
        },
        None => None,
    }
}

/// Proxy (placeholder) mode is asked for when `AZURE_FWA_MODE` is `proxy` in any case.
pub fn is_proxy_mode(mode: Option<&str>) -> (r: bool)
    ensures
        r == (mode matches Some(m) && lowercase(m@) == "proxy"@),
{
    match mode {
        Some(m) => {
            let lower = to_lowercase(m);
            str_eq(lower.as_str(), "proxy")
        },
        None => false,
    }
}

/// A worker that ended with this error message ended normally: the host terminated it.
pub fn is_clean_exit(message: &str) -> (r: bool)
    ensures
        r == contains_seq(message@, TERMINATED_MESSAGE@),
{
    chars_contain(&chars_of(message), &chars_of(TERMINATED_MESSAGE))
}

} // verus!
