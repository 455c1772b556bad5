//! Status codes and their classification.
//!
//! A response carries a numeric status code; the session routes on the coarse
//! class derived from it. Classification is a total function of the code:
//! every byte value maps to exactly one class.

use vstd::prelude::*;

verus! {

/// The coarse class of a numeric status code.
///
/// `Unknown` keeps the raw code of a response outside every documented range.
#[derive(Debug, Clone, Copy, PartialEq, Eq, Structural)]
pub enum StatusCode {
    Input,
    Success,
    Redirect,
    TemporaryFailure,
    PermanentFailure,
    ClientCertificateRequired,
    Unknown(u8),
}

/// The class of `code`: 10-19 input, 20-29 success, 30-39 redirect,
/// 40-49 temporary failure, 50-59 permanent failure, 60-69 certificate
/// required, anything else unknown.
pub open spec fn classify(code: u8) -> StatusCode {
    if 10 <= code <= 19 {
        StatusCode::Input
    } else if 20 <= code <= 29 {
        StatusCode::Success
    } else if 30 <= code <= 39 {
        StatusCode::Redirect
    } else if 40 <= code <= 49 {
        StatusCode::TemporaryFailure
    } else if 50 <= code <= 59 {
        StatusCode::PermanentFailure
    } else if 60 <= code <= 69 {
        StatusCode::ClientCertificateRequired
    } else {
        StatusCode::Unknown(code)
    }
}

impl From<u8> for StatusCode {
    fn from(code: u8) -> (r: Self)
        ensures
            r == classify(code),
    {
        match code {
            10..=19 => StatusCode::Input,
            20..=29 => StatusCode::Success,
            30..=39 => StatusCode::Redirect,
            40..=49 => StatusCode::TemporaryFailure,
            50..=59 => StatusCode::PermanentFailure,
            60..=69 => StatusCode::ClientCertificateRequired,
            _ => StatusCode::Unknown(code),
        }
    }
}

impl vstd::std_specs::convert::FromSpecImpl<u8> for StatusCode {
    open spec fn obeys_from_spec() -> bool {
        true
    }

    open spec fn from_spec(code: u8) -> Self {
        classify(code)
    }
}

/// Classification is total and lands each boundary on its documented side:
/// every code belongs to exactly the one class its ten-wide range gives it,
/// and codes below 10 or at 70 and above are unknown.
pub proof fn lemma_classify_total()
    ensures
        forall|code: u8| 10 <= code <= 19 <==> #[trigger] classify(code) is Input,
        forall|code: u8| 20 <= code <= 29 <==> #[trigger] classify(code) is Success,
        forall|code: u8| 30 <= code <= 39 <==> #[trigger] classify(code) is Redirect,
        forall|code: u8| 40 <= code <= 49 <==> #[trigger] classify(code) is TemporaryFailure,
        forall|code: u8| 50 <= code <= 59 <==> #[trigger] classify(code) is PermanentFailure,
        forall|code: u8|
            60 <= code <= 69 <==> #[trigger] classify(code) is ClientCertificateRequired,
        forall|code: u8|
            (code < 10 || code >= 70) <==> #[trigger] classify(code) == StatusCode::Unknown(code),
{
}

} // verus!
