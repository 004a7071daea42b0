//! Settings of the server process derived from the command line.
use vstd::prelude::*;
use crate::text::{decimal, push_decimal, push_str, string_from_chars};

verus! {

/// The port the server listens on unless told otherwise.
pub const DEFAULT_PORT: u16 = 8765;

/// The log filter for a verbosity count: warnings, then information, then
/// everything for debugging.
pub open spec fn log_filter_model(verbose: u8) -> Seq<char> {
    if verbose == 0 {
        "warn"@
    } else if verbose == 1 {
        "info"@
    } else {
        "debug"@
    }
}

/// The log filter for `-v` given `verbose` times.
pub fn log_filter(verbose: u8) -> (r: &'static str)
    ensures
        r@ == log_filter_model(verbose),
{
    match verbose {
        0 => "warn",
        1 => "info",
        _ => "debug",
    }
}

/// `0.0.0.0:<port>`: every interface.
pub fn listen_addr(port: u16) -> (r: String)
    ensures
        r@ == "0.0.0.0:"@ + decimal(port as nat),
{
    let mut v: Vec<char> = Vec::new();
    push_str(&mut v, "0.0.0.0:");
    push_decimal(&mut v, port as u64);
    string_from_chars(v.as_slice())
}

} // verus!
