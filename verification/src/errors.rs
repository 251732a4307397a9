//! The two failure shapes every repository operation can report.

use vstd::prelude::*;

use crate::text::{id_msg, make_id_msg};

verus! {

/// `NotFound` names a missing identifier (or an empty collection on a listing
/// call); `ValidationError` reports a rejected creation payload. Both carry
/// their message verbatim.
#[derive(Debug)]
pub enum Error {
    NotFound { msg: String },
    ValidationError { msg: String },
}

impl Error {
    pub open spec fn is_not_found(&self) -> bool {
        match self {
            Error::NotFound { .. } => true,
            Error::ValidationError { .. } => false,
        }
    }

    pub open spec fn is_validation(&self) -> bool {
        match self {
            Error::NotFound { .. } => false,
            Error::ValidationError { .. } => true,
        }
    }

    pub open spec fn msg(&self) -> Seq<char> {
        match self {
            Error::NotFound { msg } => msg@,
            Error::ValidationError { msg } => msg@,
        }
    }

    /// The message carried by either variant.
    pub fn message(&self) -> (r: &String)
        ensures
            r@ == self.msg(),
    {
        match self {
            Error::NotFound { msg } => msg,
            Error::ValidationError { msg } => msg,
        }
    }
}

/// A `NotFound` whose message embeds the offending identifier in decimal.
pub fn not_found_id(prefix: &str, id: u64, suffix: &str) -> (e: Error)
    ensures
        e.is_not_found(),
        e.msg() == id_msg(prefix@, id, suffix@),
{
    Error::NotFound { msg: make_id_msg(prefix, id, suffix) }
}

/// A `NotFound` with a fixed message.
pub fn not_found_text(m: &str) -> (e: Error)
    ensures
        e.is_not_found(),
        e.msg() == m@,
{
    Error::NotFound { msg: String::from_str(m) }
}

/// A `ValidationError` with a fixed message.
pub fn validation_error(m: &str) -> (e: Error)
    ensures
        e.is_validation(),
        e.msg() == m@,
{
    Error::ValidationError { msg: String::from_str(m) }
}

} // verus!
