//! The answers the server gives, and the requests it takes.
//!
//! Every answer is an envelope: code 200 and the text `success` with the
//! result, or code 401 and the text of the error.

use crate::utils::{AiError, ErrorView};
use vstd::prelude::*;
use vstd::string::StringExecFns;

pub mod message;
pub mod user;

verus! {

/// The code of a successful answer.
pub const CODE_SUCCESS: i16 = 200;

/// The code of a failed answer.
pub const CODE_FAILURE: i16 = 401;

/// The envelope of an answer that carries a value.
#[derive(Debug)]
pub struct BaseRes<T> {
    pub code: i16,
    pub msg: String,
    pub data: Option<T>,
}

/// The mathematical value of the envelope of a yes-or-no answer.
pub struct BoolResView {
    pub code: i16,
    pub msg: Seq<char>,
    pub data: bool,
}

/// The envelope of a yes-or-no answer.
#[derive(Debug)]
pub struct BoolRes {
    pub code: i16,
    pub msg: String,
    pub data: bool,
}

impl View for BoolRes {
    type V = BoolResView;

    open spec fn view(&self) -> BoolResView {
        BoolResView { code: self.code, msg: self.msg@, data: self.data }
    }
}

/// The yes-or-no answer for a success.
pub open spec fn bool_success() -> BoolResView {
    BoolResView { code: CODE_SUCCESS, msg: "success"@, data: true }
}

/// The yes-or-no answer for the error `e`.
pub open spec fn bool_failure(e: ErrorView) -> BoolResView {
    BoolResView { code: CODE_FAILURE, msg: e.err, data: false }
}

impl<T> BaseRes<T> {
    /// The envelope is that of a success with the value `data`.
    pub open spec fn is_success(self, data: T) -> bool {
        &&& self.code == CODE_SUCCESS
        &&& self.msg@ == "success"@
        &&& self.data == Some(data)
    }

    /// The envelope is that of the error `e`.
    pub open spec fn is_failure(self, e: ErrorView) -> bool {
        &&& self.code == CODE_FAILURE
        &&& self.msg@ == e.err
        &&& self.data is None
    }
}

/// Wraps an outcome that carries a value into its envelope.
pub fn return_base_res<T>(res: Result<T, AiError>) -> (answer: BaseRes<T>)
    ensures
        match res {
            Ok(data) => answer.is_success(data),
            Err(e) => answer.is_failure(e@),
        },
{
    match res {
        Ok(data) => BaseRes {
            code: CODE_SUCCESS,
            msg: String::from_str("success"),
            data: Some(data),
        },
        Err(err) => BaseRes { code: CODE_FAILURE, msg: err.to_string(), data: None },
    }
}

/// Wraps an outcome without a value into its envelope.
pub fn return_bool_res(res: Result<(), AiError>) -> (answer: BoolRes)
    ensures
        answer@ == match res {
            Ok(_) => bool_success(),
            Err(e) => bool_failure(e@),
        },
{
    match res {
        Ok(_) => BoolRes { code: CODE_SUCCESS, msg: String::from_str("success"), data: true },
        Err(err) => BoolRes { code: CODE_FAILURE, msg: err.to_string(), data: false },
    }
}

} // verus!
