use vstd::prelude::*;

verus! {

/// The error kinds a request pipeline can surface: a bad upstream response,
/// a rendering failure, or an expected field absent from the upstream
/// payload. Every kind carries a message and is answered with an
/// internal-server-error status, never a process abort.
#[derive(Debug)]
pub enum AppError {
    /// A non-2xx status or a malformed response from the upstream API.
    Upstream { message: String },
    /// The template renderer failed on a well-formed view.
    Render { message: String },
    /// An expected field was absent from the upstream payload.
    Precondition { message: String },
}

impl AppError {
    /// The message carried by the error, whatever its kind.
    pub open spec fn spec_message(&self) -> Seq<char> {
        match self {
            AppError::Upstream { message } => message@,
            AppError::Render { message } => message@,
            AppError::Precondition { message } => message@,
        }
    }

    /// Every error surfaces to the HTTP layer as an internal server error.
    pub fn status_code(&self) -> (r: u16)
        ensures
            r == 500,
    {
        500
    }

    /// The user-visible message.
    pub fn message(&self) -> (r: &String)
        ensures
            r@ == self.spec_message(),
    {
        match self {
            AppError::Upstream { message } => message,
            AppError::Render { message } => message,
            AppError::Precondition { message } => message,
        }
    }
}

} // verus!
