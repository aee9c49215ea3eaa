//! The configuration decision: a required credential is either present,
//! or its absence is a configuration error naming it — decided before
//! any network call is attempted.

use vstd::prelude::*;
use crate::error::AppError;

verus! {

/// The credential called `name`: its value where one is set, otherwise a
/// configuration error carrying the credential's name.
pub fn require_credential(name: &str, value: Option<String>) -> (r: Result<String, AppError>)
    ensures
        (value is Some) ==> r == Result::<String, AppError>::Ok(value.unwrap()),
        (value is None) ==> (r matches Result::Err(e) && e matches AppError::ConfigError(n)
            && n@ == name@),
{
    match value {
        Option::Some(v) => Result::Ok(v),
        Option::None => Result::Err(AppError::ConfigError(name.to_owned())),
    }
}

} // verus!
