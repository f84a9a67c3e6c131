//! The server-side record of one admitted player.

use vstd::prelude::*;

verus! {

/// One admitted player: a unique 128-bit identity assigned at registration,
/// a display name (a placeholder until the player picks one), and the
/// monotonic timestamp of the last observed activity.
pub struct User {
    pub uuid: u128,
    pub nick: String,
    pub hb: u64,
}

/// The display name a freshly admitted player starts with.
pub open spec fn default_nick() -> Seq<char> {
    "Anonymous"@
}

impl User {
    /// A fresh session record for the given identity, stamped with the
    /// current activity time.
    pub fn new(uuid: u128, now: u64) -> (u: User)
        ensures
            u.uuid == uuid,
            u.nick@ == default_nick(),
            u.hb == now,
    {
        User { uuid, nick: "Anonymous".to_owned(), hb: now }
    }
}

} // verus!
