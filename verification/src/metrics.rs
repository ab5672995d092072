//! The address of the metrics exporter, and why it may fail to start.

use crate::text::{join2, to_full_addr};
use vstd::prelude::*;
use vstd::string::*;

verus! {

/// Why the metrics exporter did not start.
#[derive(Debug)]
pub enum MetricsError {
    /// The address is not one to listen on.
    Address(String),
    /// The exporter could not be installed.
    Install(String),
}

/// What a failure to start the exporter is reported as.
pub open spec fn error_text(e: MetricsError) -> Seq<char> {
    match e {
        MetricsError::Address(detail) => "invalid address: "@ + detail@,
        MetricsError::Install(detail) => "install exporter: "@ + detail@,
    }
}

impl MetricsError {
    /// What this failure is reported as.
    pub fn message(&self) -> (r: String)
        ensures
            r@ == error_text(*self),
    {
        match self {
            MetricsError::Address(detail) => join2("invalid address: ", detail.as_str()),
            MetricsError::Install(detail) => join2("install exporter: ", detail.as_str()),
        }
    }
}

/// The address to listen on, in full (`:9090` stands for `0.0.0.0:9090`).
pub fn normalize_addr(addr: &str) -> (r: Result<String, MetricsError>)
    ensures
        r is Ok,
        r->Ok_0@ == crate::text::full_addr(addr@),
{
    Ok(to_full_addr(addr))
}

/// The failure to make a socket address of `addr`.
pub fn address_error(addr: &str, detail: &str) -> (r: MetricsError)
    ensures
        r is Address,
        r->Address_0@ == addr@ + ": "@ + detail@,
{
    let mut text = join2(addr, ": ");
    text.append(detail);
    MetricsError::Address(text)
}

} // verus!
