//! The uniform response envelope handed back to callers.

use vstd::prelude::*;

verus! {

/// A success-or-error envelope around a payload of type `T`.
#[derive(Debug)]
pub struct ApiResponse<T> {
    pub success: bool,
    pub data: Option<T>,
    pub error: Option<String>,
    pub code: Option<String>,
}

impl<T> ApiResponse<T> {
    /// A successful response carrying `data`.
    pub fn success(data: T) -> (r: ApiResponse<T>)
        ensures
            r.success == true,
            r.data == Some(data),
            r.error is None,
            r.code is None,
    {
        ApiResponse { success: true, data: Some(data), error: None, code: None }
    }

    /// A failed response carrying the message `msg`.
    pub fn error(msg: String) -> (r: ApiResponse<T>)
        ensures
            r.success == false,
            r.data is None,
            r.error == Some(msg),
            r.code is None,
    {
        ApiResponse { success: false, data: None, error: Some(msg), code: None }
    }

    /// A failed response carrying a machine-readable `code` beside the
    /// message.
    pub fn error_with_code(code: String, msg: String) -> (r: ApiResponse<T>)
        ensures
            r.success == false,
            r.data is None,
            r.error == Some(msg),
            r.code == Some(code),
    {
        ApiResponse { success: false, data: None, error: Some(msg), code: Some(code) }
    }
}

} // verus!
