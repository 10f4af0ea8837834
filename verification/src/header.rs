//! How long a response may be kept by caches.
use vstd::prelude::*;

verus! {

pub const ONE_DAY_IN_SECONDS: u32 = 60 * 60 * 24;

pub const ONE_WEEK_IN_SECONDS: u32 = ONE_DAY_IN_SECONDS * 7;

pub const TEN_YEARS_IN_SECONDS: u32 = ONE_WEEK_IN_SECONDS * 52 * 10;

/// The directives of a `Cache-Control` header: whether shared caches may
/// keep the response, and for how many seconds it stays fresh.
#[derive(Clone, Copy, Debug, PartialEq, Eq)]
pub struct CacheControl {
    pub public: bool,
    pub max_age: u32,
}

/// For content whose address changes when it does.
pub fn cache_forever() -> (header: CacheControl)
    ensures
        header.public,
        header.max_age == 314_496_000,
{
    CacheControl { public: true, max_age: TEN_YEARS_IN_SECONDS }
}

pub fn cache_for_one_week() -> (header: CacheControl)
    ensures
        header.public,
        header.max_age == 604_800,
{
    CacheControl { public: true, max_age: ONE_WEEK_IN_SECONDS }
}

pub fn cache_for_one_day() -> (header: CacheControl)
    ensures
        header.public,
        header.max_age == 86_400,
{
    CacheControl { public: true, max_age: ONE_DAY_IN_SECONDS }
}

} // verus!
