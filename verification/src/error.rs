//! The failures that the gateway reports to its caller.

use crate::text::join;
use vstd::prelude::*;

verus! {

/// Why a request could not be served.
#[derive(Debug, PartialEq, Eq)]
pub enum AppError {
    /// The request body is no chat request.
    InvalidRequest,
    /// The request names a model that the registry does not hold.
    UnknownModel,
    /// The model refers to a credential pool that the registry does not hold.
    UnknownCredentialPool,
    /// The credential asks for the proxied client and none was configured.
    ProxyNotConfigured,
    /// The upstream answered with a status outside 200..=299.
    Upstream { status: u16, body: String },
    /// An upstream payload is not JSON of the expected shape.
    MalformedPayload,
    /// An upstream payload holds no choice, candidate or part to read.
    EmptyChoices,
}

/// The model of an [`AppError`].
pub enum AppErrorView {
    InvalidRequest,
    UnknownModel,
    UnknownCredentialPool,
    ProxyNotConfigured,
    Upstream { status: u16, body: Seq<char> },
    MalformedPayload,
    EmptyChoices,
}

impl View for AppError {
    type V = AppErrorView;

    open spec fn view(&self) -> AppErrorView {
        match self {
            AppError::InvalidRequest => AppErrorView::InvalidRequest,
            AppError::UnknownModel => AppErrorView::UnknownModel,
            AppError::UnknownCredentialPool => AppErrorView::UnknownCredentialPool,
            AppError::ProxyNotConfigured => AppErrorView::ProxyNotConfigured,
            AppError::Upstream { status, body } => AppErrorView::Upstream {
                status: *status,
                body: body@,
            },
            AppError::MalformedPayload => AppErrorView::MalformedPayload,
            AppError::EmptyChoices => AppErrorView::EmptyChoices,
        }
    }
}

/// The sentence that names the failure.
pub open spec fn reason(e: AppErrorView) -> Seq<char> {
    match e {
        AppErrorView::InvalidRequest => "Get ChatRequest"@,
        AppErrorView::UnknownModel => "Invalid model id"@,
        AppErrorView::UnknownCredentialPool => "Invalid api_key_id"@,
        AppErrorView::ProxyNotConfigured =>
            "You've chosen to use a proxy but haven't set it up yet"@,
        AppErrorView::Upstream { status, body } => "error:"@ + body,
        AppErrorView::MalformedPayload => "Malformed upstream payload"@,
        AppErrorView::EmptyChoices => "Must have at least one choice"@,
    }
}

impl Clone for AppError {
    fn clone(&self) -> (r: Self)
        ensures
            r@ == self@,
    {
        match self {
            AppError::InvalidRequest => AppError::InvalidRequest,
            AppError::UnknownModel => AppError::UnknownModel,
            AppError::UnknownCredentialPool => AppError::UnknownCredentialPool,
            AppError::ProxyNotConfigured => AppError::ProxyNotConfigured,
            AppError::Upstream { status, body } => AppError::Upstream {
                status: *status,
                body: body.clone(),
            },
            AppError::MalformedPayload => AppError::MalformedPayload,
            AppError::EmptyChoices => AppError::EmptyChoices,
        }
    }
}

impl AppError {
    /// The status of the response that reports a failure: always 400.
    pub fn status_code(&self) -> (r: u16)
        ensures
            r == 400,
    {
        400
    }

    /// The plain-text body of the response that reports the failure.
    pub fn message(&self) -> (r: String)
        ensures
            r@ == "Something went wrong: "@ + reason(self@),
    {
        let why: String = match self {
            AppError::InvalidRequest => "Get ChatRequest".to_owned(),
            AppError::UnknownModel => "Invalid model id".to_owned(),
            AppError::UnknownCredentialPool => "Invalid api_key_id".to_owned(),
            AppError::ProxyNotConfigured =>
                "You've chosen to use a proxy but haven't set it up yet".to_owned(),
            AppError::Upstream { status, body } => join("error:", body.as_str()),
            AppError::MalformedPayload => "Malformed upstream payload".to_owned(),
            AppError::EmptyChoices => "Must have at least one choice".to_owned(),
        };
        join("Something went wrong: ", why.as_str())
    }
}

/// Whether a status is a success: one of 200..=299.
pub open spec fn is_success(status: u16) -> bool {
    200 <= status <= 299
}

/// Whether a status is a success.
pub fn status_is_success(status: u16) -> (r: bool)
    ensures
        r == is_success(status),
{
    200 <= status && status <= 299
}

/// Accepts a successful upstream status and turns any other into
/// [`AppError::Upstream`] with the status and the body text.
pub fn check_status(status: u16, body: &str) -> (r: Result<(), AppError>)
    ensures
        is_success(status) ==> r is Ok,
        !is_success(status) ==> r is Err && r->Err_0@ == (AppErrorView::Upstream {
            status,
            body: body@,
        }),
{
    if 200 <= status && status <= 299 {
        Ok(())
    } else {
        Err(AppError::Upstream { status, body: body.to_owned() })
    }
}

} // verus!
