//! The exact-token and exact-text rules that special-routine data obeys.
use vstd::prelude::*;
use crate::text::{copy_text, is_exact_text, is_exact_text_text, is_exact_token, is_exact_token_text, is_exact_value, is_exact_value_text};

verus! {

/// A nonempty, trimmed, unreserved identifier of ASCII letters, digits and `_`.
pub fn is_exact_nonempty_special_token(value: &str) -> (b: bool)
    ensures
        b == is_exact_token(value@),
{
    is_exact_token_text(value)
}

/// Nonempty, trimmed, unreserved text without control characters.
pub fn is_exact_nonempty_special_value(value: &str) -> (b: bool)
    ensures
        b == is_exact_value(value@),
{
    is_exact_value_text(value)
}

/// A field of pack data that broke the token or text rule, with the value it held.
#[derive(Debug, PartialEq, Eq)]
pub enum SpecialValueError {
    NotExactToken { field: String, value: String },
    NotExactText { field: String, value: String },
}

/// A token or text error with its field and value as character sequences.
pub enum SpecialValueErrorView {
    NotExactToken { field: Seq<char>, value: Seq<char> },
    NotExactText { field: Seq<char>, value: Seq<char> },
}

impl View for SpecialValueError {
    type V = SpecialValueErrorView;

    open spec fn view(&self) -> SpecialValueErrorView {
        match self {
            SpecialValueError::NotExactToken { field, value } => {
                SpecialValueErrorView::NotExactToken { field: field@, value: value@ }
            },
            SpecialValueError::NotExactText { field, value } => {
                SpecialValueErrorView::NotExactText { field: field@, value: value@ }
            },
        }
    }
}

/// `value` must be an exact token; the error names `field`.
pub fn require_special_token(field: &str, value: &str) -> (r: Result<(), SpecialValueError>)
    ensures
        r is Ok <==> is_exact_token(value@),
        r matches Err(SpecialValueError::NotExactToken { field: f, value: v }) ==> f@ == field@ && v@ == value@,
        r is Err ==> r->Err_0 is NotExactToken,
{
    if is_exact_nonempty_special_token(value) {
        Ok(())
    } else {
        Err(SpecialValueError::NotExactToken { field: copy_text(field), value: copy_text(value) })
    }
}

/// `value` must be exact text; the error names `field`.
pub fn require_special_text(field: &str, value: &str) -> (r: Result<(), SpecialValueError>)
    ensures
        r is Ok <==> is_exact_text(value@),
        r matches Err(SpecialValueError::NotExactText { field: f, value: v }) ==> f@ == field@ && v@ == value@,
        r is Err ==> r->Err_0 is NotExactText,
{
    if is_exact_text_text(value) {
        Ok(())
    } else {
        Err(SpecialValueError::NotExactText { field: copy_text(field), value: copy_text(value) })
    }
}

} // verus!
