//! The fixed endpoints of the service: eight POST endpoints, one per
//! queryable entity category, and four GET endpoints for the fixed-shape
//! records. Every path hangs off the one base.

use vstd::prelude::*;

verus! {

/// The base of every endpoint.
pub fn base_url() -> (s: &'static str)
    ensures
        s@ == "https://api.vndb.org/kana"@,
{
    "https://api.vndb.org/kana"
}

/// POST: query user lists.
pub fn post_ulist_url() -> (s: &'static str)
    ensures
        s@ == "https://api.vndb.org/kana/ulist"@,
{
    "https://api.vndb.org/kana/ulist"
}

/// POST: query traits.
pub fn post_trait_url() -> (s: &'static str)
    ensures
        s@ == "https://api.vndb.org/kana/trait"@,
{
    "https://api.vndb.org/kana/trait"
}

/// POST: query tags.
pub fn post_tag_url() -> (s: &'static str)
    ensures
        s@ == "https://api.vndb.org/kana/tag"@,
{
    "https://api.vndb.org/kana/tag"
}

/// POST: query staff.
pub fn post_staff_url() -> (s: &'static str)
    ensures
        s@ == "https://api.vndb.org/kana/staff"@,
{
    "https://api.vndb.org/kana/staff"
}

/// POST: query characters.
pub fn post_character_url() -> (s: &'static str)
    ensures
        s@ == "https://api.vndb.org/kana/character"@,
{
    "https://api.vndb.org/kana/character"
}

/// POST: query producers.
pub fn post_producer_url() -> (s: &'static str)
    ensures
        s@ == "https://api.vndb.org/kana/producer"@,
{
    "https://api.vndb.org/kana/producer"
}

/// POST: query releases.
pub fn post_release_url() -> (s: &'static str)
    ensures
        s@ == "https://api.vndb.org/kana/release"@,
{
    "https://api.vndb.org/kana/release"
}

/// POST: query visual novels.
pub fn post_vn_url() -> (s: &'static str)
    ensures
        s@ == "https://api.vndb.org/kana/vn"@,
{
    "https://api.vndb.org/kana/vn"
}

/// GET: the aggregate statistics.
pub fn get_stats_url() -> (s: &'static str)
    ensures
        s@ == "https://api.vndb.org/kana/stats"@,
{
    "https://api.vndb.org/kana/stats"
}

/// GET: user lookup.
pub fn get_user_url() -> (s: &'static str)
    ensures
        s@ == "https://api.vndb.org/kana/user"@,
{
    "https://api.vndb.org/kana/user"
}

/// GET: the authenticated user's record.
pub fn get_authinfo_url() -> (s: &'static str)
    ensures
        s@ == "https://api.vndb.org/kana/authinfo"@,
{
    "https://api.vndb.org/kana/authinfo"
}

/// GET: a user's list labels.
pub fn get_ulist_url() -> (s: &'static str)
    ensures
        s@ == "https://api.vndb.org/kana/ulist_labels"@,
{
    "https://api.vndb.org/kana/ulist_labels"
}

} // verus!
