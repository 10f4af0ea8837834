//! What is shown and said when something cannot be served.
use crate::base::Base;
use std::sync::Arc;
use vstd::prelude::*;
use vstd::string::StringExecFns;

verus! {

/// The page shown in place of one that does not exist.
pub struct NotFound {
    pub _parent: Arc<Base>,
    pub title: String,
    pub msg: String,
}

/// `text` as std's `Debug` writes a string: in double quotes, with what
/// cannot stand there as it is written as an escape.
pub uninterp spec fn debug_text(text: Seq<char>) -> Seq<char>;

pub const UNICODE_ERROR_PREFIX: &'static str =
    "Path contained invalid unicode characters or no file name could be identified: ";

/// std's `Debug` for `str`, through `format!`.
#[verifier::external_body]
fn debug_string(text: &str) -> (quoted: String)
    ensures
        quoted@ == debug_text(text@),
{
    format!("{:?}", text)
}

/// The complaint about a path that cannot be read as text or names no file.
pub fn unicode_error(path: &str) -> (message: String)
    ensures
        message@ == UNICODE_ERROR_PREFIX@ + debug_text(path@),
{
    let quoted = debug_string(path);
    String::from_str(UNICODE_ERROR_PREFIX).concat(quoted.as_str())
}

} // verus!
