//! The typed results the web boundary turns into responses: the
//! error taxonomy and the uniform response envelope.

use vstd::prelude::*;

verus! {

/// A request-level failure, as the web boundary reports it.
#[derive(Debug, Clone)]
pub enum ApiError {
    InternalServerError,
    /// A business error: code and message.
    BizError(String, String),
    /// A rejected request parameter: field name and message.
    InvalidParameter(String, String),
}

/// The uniform response envelope around a payload.
#[derive(Debug, Clone)]
pub struct ApiResponse<T> {
    pub success: bool,
    pub err_code: Option<String>,
    pub err_message: Option<String>,
    pub data: T,
}

impl<T> ApiResponse<T> {
    /// Wraps a payload as a success: no error code, no error message.
    pub fn ok(data: T) -> (r: ApiResponse<T>)
        ensures
            r.success == true,
            r.err_code is None,
            r.err_message is None,
            r.data == data,
    {
        ApiResponse { success: true, err_code: None, err_message: None, data }
    }
}

} // verus!
