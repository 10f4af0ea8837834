//! What crawlers are told.
use vstd::prelude::*;

verus! {

/// Every crawler may read the site but for the static files.
pub const ROBOTS_TXT: &'static str = "User-agent: *\nDisallow: /files";

/// The text served as `robots.txt`.
pub fn get_robots_txt() -> (text: &'static str)
    ensures
        text@ == ROBOTS_TXT@,
{
    ROBOTS_TXT
}

} // verus!
