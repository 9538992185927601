//! The fixed-shape reply records: plain flat data with no recursive
//! structure. The transport decodes the wire JSON into these; the library
//! only holds and selects among them.

use vstd::prelude::*;

verus! {

/// Aggregate statistics of the remote database.
#[derive(Debug, Clone, PartialEq, Eq, Structural)]
pub struct VndbStats {
    pub releases: usize,
    pub producers: usize,
    pub vn: usize,
    pub tags: usize,
    pub staff: usize,
    pub traits: usize,
    pub chars: usize,
}

/// One user record. The vote-length fields are optional: the service
/// reports them only when asked for, and reports null for users who have
/// none recorded.
#[derive(Debug, PartialEq, Eq)]
pub struct UserStat {
    pub id: String,
    pub username: String,
    pub lengthvotes: Option<usize>,
    pub lengthvotes_sum: Option<usize>,
}

impl Clone for UserStat {
    /// A clone carries the same fields.
    fn clone(&self) -> (r: Self)
        ensures
            r == *self,
    {
        UserStat {
            id: self.id.clone(),
            username: self.username.clone(),
            lengthvotes: self.lengthvotes,
            lengthvotes_sum: self.lengthvotes_sum,
        }
    }
}

/// What the service reports for a user lookup: one entry per queried id
/// or name, in order; a name the service does not know maps to nothing.
pub type UserStats = Vec<(String, Option<UserStat>)>;

/// The record of the authenticated user.
#[derive(Debug, Clone, PartialEq, Eq)]
pub struct AuthInfo {
    pub id: String,
    pub username: String,
    pub permissions: Vec<String>,
}

/// One list label of a user, with its item count.
#[derive(Debug, Clone, PartialEq, Eq)]
pub struct UlistItem {
    pub id: isize,
    pub private: bool,
    pub count: usize,
    pub label: String,
}

/// The label records of users, one entry per user key.
pub type UlistItems = Vec<(String, Vec<UlistItem>)>;

/// What a user-lookup reply holds under a key: the value of the first
/// entry whose key matches, if any.
pub open spec fn stats_get(entries: Seq<(String, Option<UserStat>)>, key: Seq<char>) -> Option<
    Option<UserStat>,
>
    decreases entries.len(),
{
    if entries.len() == 0 {
        None
    } else if entries[0].0@ == key {
        Some(entries[0].1)
    } else {
        stats_get(entries.drop_first(), key)
    }
}

/// While the first `i` keys miss, the lookup is decided by the rest.
proof fn lemma_stats_get_skip(entries: Seq<(String, Option<UserStat>)>, key: Seq<char>, i: int)
    requires
        0 <= i <= entries.len(),
        forall|k: int| 0 <= k < i ==> entries[k].0@ != key,
    ensures
        stats_get(entries, key) == stats_get(entries.subrange(i, entries.len() as int), key),
    decreases i,
{
    if i == 0 {
        assert(entries.subrange(0, entries.len() as int) =~= entries);
    } else {
        lemma_stats_get_skip(entries, key, i - 1);
        let rest = entries.subrange(i - 1, entries.len() as int);
        assert(rest[0] == entries[i - 1]);
        assert(rest.drop_first() =~= entries.subrange(i, entries.len() as int));
    }
}

/// Select one user's record out of a user-lookup reply. The reply must
/// hold an entry for the key: a caller that asked the service for this
/// key checks so before calling.
#[verifier::loop_isolation(false)]
pub fn select_user_stat(stats: &UserStats, id_or_name: &str) -> (r: Option<UserStat>)
    requires
        stats_get(stats@, id_or_name@) is Some,
    ensures
        stats_get(stats@, id_or_name@) matches Some(v) && r == v,
{
    let key: String = id_or_name.to_owned();
    let n = stats.len();
    let mut i: usize = 0;
    while i < n
        invariant
            n == stats@.len(),
            i <= n,
            key@ == id_or_name@,
            forall|k: int| 0 <= k < i ==> stats@[k].0@ != id_or_name@,
        decreases n - i,
    {
        if stats[i].0 == key {
            proof {
                lemma_stats_get_skip(stats@, id_or_name@, i as int);
                let rest = stats@.subrange(i as int, stats@.len() as int);
                assert(rest[0] == stats@[i as int]);
            }
            return match &stats[i].1 {
                Some(u) => Some(u.clone()),
                None => None,
            };
        }
        i += 1;
    }
    proof {
        lemma_stats_get_skip(stats@, id_or_name@, n as int);
        assert(stats@.subrange(n as int, stats@.len() as int) =~= Seq::<(
            String,
            Option<UserStat>,
        )>::empty());
    }
    None
}

} // verus!
