//! Error values returned by the parsing entry points.

use vstd::prelude::*;
use crate::restful::{ParseError, ParseErrorV, ErrorVariant, ErrorVariantV};
use crate::diag::{sp_message_sets, render_message_sets};
use crate::text::chars_to_string;

verus! {

/// A domain error with a fixed descriptive message.
#[derive(Debug)]
pub struct CustomError {
    msg: String,
}

impl View for CustomError {
    type V = Seq<char>;

    closed spec fn view(&self) -> Seq<char> {
        self.msg@
    }
}

impl CustomError {
    pub fn new(msg: String) -> (r: CustomError)
        ensures
            r@ == msg@,
    {
        CustomError { msg }
    }

    /// The message text.
    pub fn message(&self) -> (r: &String)
        ensures
            r@ == self@,
    {
        &self.msg
    }
}

/// An error of the parsing entry points: either a domain error or a raw
/// grammar failure.
#[derive(Debug)]
pub enum Error {
    OnebootError(CustomError),
    ParseRestError(ParseError),
}

/// Mathematical model of an [`Error`].
pub ghost enum ErrorV {
    Oneboot(Seq<char>),
    ParseRest(ParseErrorV),
}

impl View for Error {
    type V = ErrorV;

    open spec fn view(&self) -> ErrorV {
        match self {
            Error::OnebootError(c) => ErrorV::Oneboot(c@),
            Error::ParseRestError(e) => ErrorV::ParseRest(e@),
        }
    }
}

/// The message text of an error variant.
pub open spec fn sp_variant_message(v: ErrorVariantV) -> Seq<char> {
    match v {
        ErrorVariantV::Parsing { positives, negatives } => sp_message_sets(positives, negatives),
        ErrorVariantV::Custom { message } => message,
    }
}

/// The message text of an error.
pub open spec fn sp_error_message(e: ErrorV) -> Seq<char> {
    match e {
        ErrorV::Oneboot(m) => m,
        ErrorV::ParseRest(pe) => sp_variant_message(pe.variant),
    }
}

impl Error {
    /// The human-readable message of this error.
    pub fn message(&self) -> (r: String)
        ensures
            r@ == sp_error_message(self@),
    {
        match self {
            Error::OnebootError(c) => c.message().clone(),
            Error::ParseRestError(e) => match &e.variant {
                ErrorVariant::ParsingError { positives, negatives } => chars_to_string(
                    &render_message_sets(positives, negatives),
                ),
                ErrorVariant::CustomError { message } => message.clone(),
            },
        }
    }
}

} // verus!
