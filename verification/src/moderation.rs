//! The moderation rule the chat commands lean on: banning a user always uses
//! the same fixed timeout. The authenticated call itself is the caller's.

use vstd::prelude::*;

verus! {

/// How long a banned user stays banned, in seconds.
pub const BAN_DURATION_SECS: u64 = 30;

/// One ban to carry out: who, why, and for how long.
pub struct BanRequest {
    /// The platform user id to ban.
    pub user_id: String,
    /// The reason shown to the user.
    pub reason: String,
    /// The timeout in seconds; always the fixed duration.
    pub duration_secs: u64,
}

/// Builds the ban request for a user: the fixed timeout, never a permanent
/// ban.
pub fn ban_request(user_id: String, reason: String) -> (r: BanRequest)
    ensures
        r.user_id == user_id,
        r.reason == reason,
        r.duration_secs == BAN_DURATION_SECS,
{
    BanRequest { user_id, reason, duration_secs: BAN_DURATION_SECS }
}

} // verus!
