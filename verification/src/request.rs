//! Export requests from the bytes of a request body.
//!
//! What `try_from` returns is stated on each function, over the message that
//! the request stands for. A request borrows from the bytes, so there is no
//! function from the bytes to the request alone that the conversion could be
//! held to: `obeys_try_from_spec` says so.

use crate::error::Error;
use crate::opentelemetry::logs::types::{ExportLogsServiceRequest, ExportLogsServiceRequestView};
use crate::opentelemetry::metrics::types::{
    ExportMetricsServiceRequest, ExportMetricsServiceRequestView,
};
use crate::opentelemetry::trace::types::{ExportTraceServiceRequest, ExportTraceServiceRequestView};
use vstd::prelude::*;
use vstd::std_specs::convert::TryFromSpecImpl;

verus! {

impl<'a> TryFrom<&'a [u8]> for ExportMetricsServiceRequest<'a> {
    type Error = Error;

    /// Decodes the body of a request to export metrics.
    fn try_from(bytes: &'a [u8]) -> (r: Result<Self, Error>)
        ensures
            match ExportMetricsServiceRequestView::decode(bytes@) {
                Some(v) => r matches Ok(m) && m@ == v,
                None => r == Err::<Self, Error>(Error::InvalidProtobuf),
            },
    {
        ExportMetricsServiceRequest::from_bytes(bytes)
    }
}

impl<'a> TryFromSpecImpl<&'a [u8]> for ExportMetricsServiceRequest<'a> {
    open spec fn obeys_try_from_spec() -> bool {
        false
    }

    open spec fn try_from_spec(v: &'a [u8]) -> Result<Self, Error> {
        Err(Error::InvalidProtobuf)
    }
}

impl<'a> TryFrom<&'a [u8]> for ExportLogsServiceRequest<'a> {
    type Error = Error;

    /// Decodes the body of a request to export log records.
    fn try_from(bytes: &'a [u8]) -> (r: Result<Self, Error>)
        ensures
            match ExportLogsServiceRequestView::decode(bytes@) {
                Some(v) => r matches Ok(m) && m@ == v,
                None => r == Err::<Self, Error>(Error::InvalidProtobuf),
            },
    {
        ExportLogsServiceRequest::from_bytes(bytes)
    }
}

impl<'a> TryFromSpecImpl<&'a [u8]> for ExportLogsServiceRequest<'a> {
    open spec fn obeys_try_from_spec() -> bool {
        false
    }

    open spec fn try_from_spec(v: &'a [u8]) -> Result<Self, Error> {
        Err(Error::InvalidProtobuf)
    }
}

impl<'a> TryFrom<&'a [u8]> for ExportTraceServiceRequest<'a> {
    type Error = Error;

    /// Decodes the body of a request to export spans.
    fn try_from(bytes: &'a [u8]) -> (r: Result<Self, Error>)
        ensures
            match ExportTraceServiceRequestView::decode(bytes@) {
                Some(v) => r matches Ok(m) && m@ == v,
                None => r == Err::<Self, Error>(Error::InvalidProtobuf),
            },
    {
        ExportTraceServiceRequest::from_bytes(bytes)
    }
}

impl<'a> TryFromSpecImpl<&'a [u8]> for ExportTraceServiceRequest<'a> {
    open spec fn obeys_try_from_spec() -> bool {
        false
    }

    open spec fn try_from_spec(v: &'a [u8]) -> Result<Self, Error> {
        Err(Error::InvalidProtobuf)
    }
}

} // verus!
