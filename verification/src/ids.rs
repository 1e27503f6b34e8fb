use vstd::prelude::*;

verus! {

/// The Discord identities the bot is set up with.
#[derive(Clone, Copy, Debug, PartialEq, Eq, Structural)]
pub struct BotIds {
    /// The member whose games, calls and screen shares the bot follows.
    pub tracked_user: u64,
    /// The server the bot watches.
    pub home_guild: u64,
    /// The text channel where announcements go.
    pub general_channel: u64,
    /// The bot's own user.
    pub bot_user: u64,
}

/// One second in nanoseconds: moments are counted in nanoseconds since the Unix epoch.
pub const NANOS_PER_SEC: u64 = 1_000_000_000;

/// Whole seconds from `start` to `now`, as `Duration::as_secs` counts them.
pub open spec fn elapsed_secs(start: nat, now: nat) -> nat {
    ((now - start) / (NANOS_PER_SEC as int)) as nat
}

/// Whole seconds from `start` to `now`.
pub fn seconds_between(start: u64, now: u64) -> (r: u64)
    requires
        start <= now,
    ensures
        r == elapsed_secs(start as nat, now as nat),
{
    (now - start) / NANOS_PER_SEC
}

} // verus!
